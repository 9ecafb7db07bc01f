use ccm_reborn::inspection::{
    current_campaign, display_profile_path, game_directory_candidate, game_inspection, identify_catalog_campaign,
    inspect_current_campaigns, launch_result, missing_game_inspection, starcraft_profile_candidate,
};
use ccm_reborn::state::ManagedState;

fn state(id: &str, target: &str) -> ManagedState {
    ManagedState {
        format: 1,
        campaign_id: id.into(),
        title: id.to_uppercase(),
        author: String::new(),
        version: String::new(),
        target_path: target.into(),
        installed_at: 0,
        backup_dir: "backups/x".into(),
        cleared_directories: vec![target.into()],
        files: vec![],
    }
}

#[test]
fn slots_without_metadata_are_original() {
    let c = current_campaign("wings-of-liberty", "Wings of Liberty", None);
    assert_eq!(c.title, "Original or untracked Wings of Liberty");
    assert!(!c.is_modified);
    let m = current_campaign("heart-of-the-swarm", "Heart of the Swarm", Some("title=Yuri\n"));
    assert_eq!(m.title, "Yuri");
    assert_eq!(m.author, "Unknown author");
    assert!(m.is_modified);
}

#[test]
fn current_campaigns_decode_each_slot() {
    let metadata = vec![None, Some(b"title=Yuri\nversion=2\n".to_vec()), None, None];
    let campaigns = inspect_current_campaigns(&metadata).unwrap();
    assert_eq!(campaigns.len(), 4);
    assert_eq!(campaigns[1].slot, "heart-of-the-swarm");
    assert_eq!(campaigns[1].version, "2");
    assert_eq!(campaigns[3].campaign, "Nova Covert Ops");
    let broken = vec![None, None, Some(vec![0xff, 0xfe, 0x41]), None];
    assert_eq!(
        inspect_current_campaigns(&broken).err().unwrap(),
        "metadata.txt has an incomplete UTF-16 character."
    );
}

#[test]
fn catalog_campaigns_name_untracked_matching_slots() {
    let mut active = inspect_current_campaigns(&vec![None, None, None, None]).unwrap();
    identify_catalog_campaign(&mut active, "/pkgs/yuri.zip", Some("Maps/Campaign/swarm"), true, "Yuri", "Kit", "1.0");
    assert_eq!(active[1].title, "Yuri");
    assert!(active[1].is_modified);
    identify_catalog_campaign(&mut active, "https://x/y.zip", Some("Maps/Campaign"), true, "Remote", "A", "1");
    assert_eq!(active[0].title, "Original or untracked Wings of Liberty");
    identify_catalog_campaign(&mut active, "/pkgs/other.zip", Some("Maps/Campaign/swarm"), true, "Other", "B", "2");
    assert_eq!(active[1].title, "Yuri");
}

#[test]
fn inspection_lists_managed_campaigns_by_slot() {
    let states = vec![state("nova-mod", "Maps/Campaign/nova"), state("wol-mod", "Maps/Campaign")];
    let report = game_inspection("/games/sc2", true, &states, vec![], false);
    assert!(report.exists);
    assert_eq!(report.managed_campaigns.len(), 2);
    assert_eq!(report.managed_campaigns[0].slot, "nova-covert-ops");
    assert_eq!(report.active_campaign.unwrap().id, "nova-mod");
    let missing = missing_game_inspection("/nowhere");
    assert!(!missing.exists);
    assert_eq!(launch_result().message, "StarCraft II launched. Choose Continue to resume the current campaign.");
}

#[test]
fn profile_paths_under_home_are_shortened() {
    assert_eq!(display_profile_path("/home/kit/sc2/profile", Some("/home/kit")), "~/sc2/profile");
    assert_eq!(display_profile_path("/other/profile", Some("/home/kit")), "/other/profile");
    assert_eq!(display_profile_path("/other/profile", None), "/other/profile");
    let candidate = starcraft_profile_candidate("/home/kit/p", Some("/home/kit"));
    assert_eq!(candidate.label, "~/p");
    assert_eq!(candidate.path, "/home/kit/p");
    assert_eq!(game_directory_candidate("/g").label, "/g");
}
