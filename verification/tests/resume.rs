use ccm_reborn::campaign_profile::SaveDetails;
use ccm_reborn::resume::{
    check_resume_manifest, is_save_file_exec, live_resume, mark_legacy_resume, merge_saved_campaign_resume,
    sort_saved_campaign_resumes, store_resume, CampaignProfileResumeManifest, SavedCampaignResume, StoredSave,
};

fn resume(id: &str, at: Option<u64>, source: Option<&str>) -> SavedCampaignResume {
    SavedCampaignResume {
        campaign_id: id.into(),
        save_count: 0,
        latest_save: None,
        unverified_save_count: 0,
        last_played_at: at,
        last_played_source: source.map(String::from),
        legacy_migration_pending: false,
    }
}

fn manifest(id: &str, names: Vec<&str>, legacy: bool) -> CampaignProfileResumeManifest {
    CampaignProfileResumeManifest {
        format: 1,
        campaign_id: id.into(),
        target_path: "Maps/Campaign/swarm".into(),
        dependency_names: names.into_iter().map(String::from).collect(),
        captured_at: 77,
        legacy_migrated: legacy,
    }
}

fn save(path: &str, at: u64, mods: Option<Vec<&str>>) -> StoredSave {
    StoredSave {
        relative_path: path.into(),
        modified_at: at,
        details: mods.map(|mods| SaveDetails {
            maps: vec!["Campaign/Swarm/ZChar01.SC2Map".into()],
            mods: mods.into_iter().map(String::from).collect(),
            campaigns: vec![],
        }),
    }
}

#[test]
fn merging_keeps_the_newest_resume_per_campaign() {
    let mut resumes = vec![resume("a", Some(10), Some("legacy-ccm-snapshot"))];
    merge_saved_campaign_resume(&mut resumes, resume("b", Some(5), None));
    assert_eq!(resumes.len(), 2);
    merge_saved_campaign_resume(&mut resumes, resume("a", Some(10), Some("verified-save")));
    assert_eq!(resumes[0].last_played_source.as_deref(), Some("verified-save"));
    merge_saved_campaign_resume(&mut resumes, resume("a", Some(9), Some("verified-save")));
    assert_eq!(resumes[0].last_played_at, Some(10));
    assert_eq!(resumes.len(), 2);
}

#[test]
fn inventory_sorts_recent_first_then_by_id() {
    let mut resumes = vec![resume("c", None, None), resume("b", Some(3), None), resume("a", Some(3), None), resume("d", Some(9), None)];
    sort_saved_campaign_resumes(&mut resumes);
    let ids = resumes.iter().map(|r| r.campaign_id.as_str()).collect::<Vec<_>>();
    assert_eq!(ids, vec!["d", "a", "b", "c"]);
}

#[test]
fn resume_manifests_must_match_their_campaign() {
    assert!(check_resume_manifest(manifest("paintball", vec!["paintball.sc2mod"], false), "paintball").is_ok());
    assert_eq!(
        check_resume_manifest(manifest("paintball", vec![], false), "other").err().unwrap(),
        "Campaign profile resume metadata does not match this campaign."
    );
    assert_eq!(
        check_resume_manifest(manifest("paintball", vec!["paintball.zip"], false), "paintball").err().unwrap(),
        "Campaign profile resume metadata has invalid dependencies."
    );
}

#[test]
fn saved_campaign_inventory_marks_unverified_slot_files_as_start_new() {
    let saves = vec![save("Saves/Unsaved/Campaign/Last Stand.SC2Save", 40, None)];
    let resume = store_resume("paintball", &saves, None, false).unwrap();
    assert_eq!(resume.save_count, 1);
    assert!(resume.latest_save.is_none());
    assert_eq!(resume.unverified_save_count, 1);
    assert_eq!(resume.last_played_at, None);
    assert_eq!(resume.last_played_source, None);
}

#[test]
fn stored_resume_uses_the_newest_matching_save() {
    let saves = vec![
        save("Saves/Campaign/b.SC2Save", 50, Some(vec!["Mods/Yuri.SC2Mod"])),
        save("Saves/Campaign/a.SC2Save", 50, Some(vec!["Mods/Yuri.SC2Mod"])),
        save("Saves/Campaign/c.SC2Save", 90, Some(vec!["Mods/Other.SC2Mod"])),
        save("Saves/SwarmCampaignSave.SC2Save", 99, Some(vec!["Mods/Yuri.SC2Mod"])),
        save("Saves/Campaign/notes.txt", 99, Some(vec!["Mods/Yuri.SC2Mod"])),
    ];
    let resume = store_resume("yuri", &saves, Some(manifest("yuri", vec!["yuri.sc2mod"], false)), true).unwrap();
    assert_eq!(resume.save_count, 3);
    let latest = resume.latest_save.unwrap();
    assert_eq!(latest.relative_path, "Saves/Campaign/a.SC2Save");
    assert_eq!(latest.map.as_deref(), Some("Campaign/Swarm/ZChar01.SC2Map"));
    assert_eq!(resume.last_played_at, Some(50));
    assert_eq!(resume.last_played_source.as_deref(), Some("verified-save"));
    assert_eq!(resume.unverified_save_count, 0);
    let legacy = store_resume("yuri", &saves, Some(manifest("yuri", vec!["yuri.sc2mod"], true)), true).unwrap();
    assert_eq!(legacy.last_played_at, Some(77));
    assert_eq!(legacy.last_played_source.as_deref(), Some("legacy-ccm-snapshot"));
    assert!(store_resume("bad id", &saves, None, true).is_none());
    assert!(store_resume("empty", &vec![], None, false).is_none());
}

#[test]
fn legacy_resumes_are_marked_pending() {
    let marked = mark_legacy_resume(resume("old", None, None), 12);
    assert_eq!(marked.last_played_at, Some(12));
    assert!(marked.legacy_migration_pending);
}

#[test]
fn live_resume_counts_saves_of_the_managed_dependencies() {
    let saves = vec![
        save("Saves/Campaign/a.SC2Save", 5, Some(vec!["Mods/Yuri.SC2Mod"])),
        save("Saves/Campaign/b.SC2Save", 8, Some(vec!["Mods/Yuri.SC2Mod"])),
        save("Saves/Campaign/c.SC2Save", 8, Some(vec!["Mods/Yuri.SC2Mod"])),
    ];
    let names = vec!["yuri.sc2mod".to_string()];
    let live = live_resume("yuri", &names, &saves).unwrap();
    assert_eq!(live.save_count, 3);
    assert_eq!(live.latest_save.unwrap().relative_path, "Saves/Campaign/b.SC2Save");
    assert_eq!(live.last_played_at, Some(8));
    assert!(live_resume("yuri", &[], &saves).is_none());
    assert!(is_save_file_exec("Saves/Campaign/X.sc2save"));
    assert!(!is_save_file_exec("Saves/Campaign/.SC2Save"));
}
