use ccm_reborn::local_mods::check_local_archive_file;
use ccm_reborn::local_mods::{
    campaign_display_for_target, campaign_slot_for_target, check_copied_archive, check_local_mod_store, local_mod_entry,
    local_mod_slug, local_package_inspection, override_or, plan_local_mod_record, remove_local_mod_record,
    suggested_local_mod_id, unique_local_mod_id, LocalModOverrides, LocalModRecord,
};

fn record(id: &str) -> LocalModRecord {
    LocalModRecord {
        id: id.into(),
        title: "T".into(),
        author: String::new(),
        version: String::new(),
        description: String::new(),
        campaign: "Heart of the Swarm".into(),
        archive_file: format!("{id}.zip"),
        sha256: "00".into(),
        size: 1,
        added_at: 0,
    }
}

#[test]
fn slugs_keep_ascii_words() {
    assert_eq!(local_mod_slug("Yuri of the Swarm.zip"), "yuri-of-the-swarm");
    assert_eq!(local_mod_slug("--My  Mod!!.v2.zip"), "my-mod-v2");
    assert_eq!(local_mod_slug("喵头嘤の奇妙战役.zip"), "");
    assert_eq!(local_mod_slug("noext"), "noext");
}

#[test]
fn suggested_ids_fall_back_to_the_hash() {
    assert_eq!(suggested_local_mod_id("Yuri of the Swarm.zip", "abc"), "local-yuri-of-the-swarm");
    assert_eq!(
        suggested_local_mod_id("喵头嘤の奇妙战役.zip", "0123456789abcdef0123"),
        "local-0123456789ab"
    );
    let long = format!("{}.zip", "a".repeat(100));
    assert_eq!(suggested_local_mod_id(&long, "x").len(), 70);
}

#[test]
fn unique_ids_never_collide() {
    let mods = vec![record("local-yuri"), record("local-yuri-2")];
    assert_eq!(unique_local_mod_id("local-new", &mods).unwrap(), "local-new");
    assert_eq!(unique_local_mod_id("local-yuri", &mods).unwrap(), "local-yuri-3");
    assert!(unique_local_mod_id("bad id", &vec![]).is_err());
}

#[test]
fn overrides_replace_only_with_non_blank_text() {
    assert_eq!(override_or(&Some("  New  ".into()), "Old".into()), "New");
    assert_eq!(override_or(&Some("   ".into()), "Old".into()), "Old");
    assert_eq!(override_or(&None, "Old".into()), "Old");
}

#[test]
fn local_package_inspection_reads_metadata_fields() {
    let inspection = local_package_inspection(
        "title=My HotS Mod\nauthor=Kit\ncampaign=HotS\nversion=1.0.2\ndesc=Short text\n",
        "Maps/Campaign/swarm",
        "My HotS Mod.zip",
        "feedface",
        10,
        2,
    )
    .unwrap();
    assert_eq!(inspection.title, "My HotS Mod");
    assert_eq!(inspection.author, "Kit");
    assert_eq!(inspection.version, "1.0.2");
    assert_eq!(inspection.description, "Short text");
    assert_eq!(inspection.campaign, "Heart of the Swarm");
    assert_eq!(inspection.suggested_id, "local-my-hots-mod");
    let untitled = local_package_inspection("campaign=WoL\n", "Maps/Campaign", "喵.zip", "ff", 1, 1).unwrap();
    assert_eq!(untitled.title, "Local campaign");
    assert!(local_package_inspection("x", "Maps/Campaign/VoidPrologue", "a.zip", "ff", 1, 1).is_err());
}

#[test]
fn adding_a_mod_plans_a_fresh_record() {
    let inspection = local_package_inspection("title=Yuri\ncampaign=HotS\n", "Maps/Campaign/swarm", "Yuri.zip", "ab", 3, 1).unwrap();
    let mods = vec![record("local-yuri")];
    let overrides = LocalModOverrides { title: Some("Renamed".into()), author: None, version: None, description: None };
    let rec = plan_local_mod_record(inspection, &mods, &overrides, 42).unwrap();
    assert_eq!(rec.id, "local-yuri-2");
    assert_eq!(rec.title, "Renamed");
    assert_eq!(rec.archive_file, "local-yuri-2.zip");
    assert_eq!(rec.added_at, 42);
    let full = (0..200).map(|i| record(&format!("m{i}"))).collect::<Vec<_>>();
    let inspection = local_package_inspection("title=Y\n", "Maps/Campaign", "Y.zip", "ab", 3, 1).unwrap();
    assert_eq!(
        plan_local_mod_record(inspection, &full, &overrides, 1).err().unwrap(),
        "CCM already tracks the maximum number of local mods."
    );
    assert!(check_copied_archive("aa", "aa").is_ok());
    assert!(check_copied_archive("aa", "bb").is_err());
}

#[test]
fn removing_takes_out_only_the_named_record() {
    let mut mods = vec![record("a"), record("b"), record("c")];
    let removed = remove_local_mod_record(&mut mods, "b").unwrap();
    assert_eq!(removed.id, "b");
    assert_eq!(mods.iter().map(|m| m.id.as_str()).collect::<Vec<_>>(), vec!["a", "c"]);
    assert!(remove_local_mod_record(&mut mods, "zzz").is_none());
    assert_eq!(mods.len(), 2);
    let entry = local_mod_entry("/store", record("a"));
    assert_eq!(entry.archive_path, "/store/archives/a.zip");
    assert!(check_local_mod_store(2, vec![]).is_err());
    assert!(check_local_mod_store(1, vec![record("x")]).unwrap().len() == 1);
}

#[test]
fn branch_names_cover_the_four_campaigns() {
    assert_eq!(campaign_slot_for_target("Maps/Campaign/void").as_deref(), Some("legacy-of-the-void"));
    assert_eq!(campaign_display_for_target("Maps/Campaign/nova").unwrap(), "Nova Covert Ops");
    assert!(campaign_slot_for_target("Maps/Other").is_none());
    assert_eq!(
        campaign_display_for_target("x").unwrap_err(),
        "metadata.txt campaign= is not a campaign CCM Reborn understands."
    );
}

fn none_overridden() -> LocalModOverrides {
    LocalModOverrides { title: None, author: None, version: None, description: None }
}

#[test]
fn local_mod_ids_stay_stable_across_removal_title_edits_and_non_latin_names() {
    let inspect = |name: &str, metadata: &str, target: &str, sha: &str| {
        local_package_inspection(metadata, target, name, sha, 10, 2).unwrap()
    };
    let mut mods: Vec<LocalModRecord> = Vec::new();
    let yuri = inspect("Yuri of the Swarm.zip", "title=Yuri\nauthor=Yuri\ncampaign=HotS\nversion=1.09\n", "Maps/Campaign/swarm", "aa");
    let added = plan_local_mod_record(yuri.clone(), &mods, &none_overridden(), 1).unwrap();
    assert_eq!(added.id, "local-yuri-of-the-swarm");
    mods.push(added);

    // A title override must not influence the id.
    let renamed = inspect("renamed.zip", "title=Yuri\ncampaign=HotS\n", "Maps/Campaign/swarm", "bb");
    let overrides = LocalModOverrides { title: Some("Totally Different Name".into()), ..none_overridden() };
    let second = plan_local_mod_record(renamed, &mods, &overrides, 2).unwrap();
    assert_eq!(second.id, "local-renamed");
    assert_eq!(second.title, "Totally Different Name");
    mods.push(second);

    // Remove, then add the same archive again: the id comes back unchanged.
    assert!(remove_local_mod_record(&mut mods, "local-yuri-of-the-swarm").is_some());
    assert!(remove_local_mod_record(&mut mods, "local-yuri-of-the-swarm").is_none());
    let again = plan_local_mod_record(yuri, &mods, &none_overridden(), 3).unwrap();
    assert_eq!(again.id, "local-yuri-of-the-swarm");
    mods.push(again);

    // A non-Latin archive name still gives a valid campaign id.
    let chinese = inspect("喵头嘤の奇妙战役.zip", "title=Eyeser\ncampaign=LotV\n", "Maps/Campaign/void", "0123456789abcdef");
    let translated = plan_local_mod_record(chinese, &mods, &none_overridden(), 4).unwrap();
    ccm_reborn::state::validate_campaign_id(&translated.id).unwrap();
    assert!(translated.id.starts_with("local-"));
    assert_eq!(translated.campaign, "Legacy of the Void");
    mods.push(translated);

    // Two different files with the same name do not collide.
    let twin = inspect("Yuri of the Swarm.zip", "title=Twin\ncampaign=HotS\n", "Maps/Campaign/swarm", "cc");
    let twin_record = plan_local_mod_record(twin, &mods, &none_overridden(), 5).unwrap();
    assert_eq!(twin_record.id, "local-yuri-of-the-swarm-2");
    mods.push(twin_record);
    assert_eq!(mods.len(), 4);
}

#[test]
fn local_archives_must_be_regular_non_empty_and_within_the_size_limit() {

    assert!(check_local_archive_file(true, 10).is_ok());
    assert_eq!(check_local_archive_file(false, 10).unwrap_err(), "Choose a regular .zip file, not a link or a folder.");
    assert_eq!(check_local_archive_file(true, 0).unwrap_err(), "That archive is empty.");
    assert_eq!(check_local_archive_file(true, 2147483649).unwrap_err(), "Package is larger than the allowed size.");
    assert!(check_local_archive_file(true, 2147483648).is_ok());
}
