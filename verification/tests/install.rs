use ccm_reborn::install::Sha256Stream;
use ccm_reborn::install::{check_archive_hash, refuse_orphan_manifest};
use ccm_reborn::campaign_profile::{campaign_profile_spec, SaveDetails};
use ccm_reborn::install::{
    add_extracted_size, backup_dir_name, check_member_size, check_package_not_empty, failure_response,
    installed_manifest_from_staged, managed_files_for_install, managed_state_for_install, new_backup_dir,
    new_operation_id, profile_store_key, refuse_nested_wol_package, sha256_hex_of_bytes, sha256_hex_of_text,
    validate_archive_entry_count, FailureResponse, InstallStep, PackageFilePlan, StagedFile,
};
use ccm_reborn::install_plan::{
    check_archive, check_request_fields, dry_run_warnings, package_file_change, previous_file_change,
    profile_totals, progress_file_plan, require_profile_for_live, snapshot_file_change, update_kind, InstallRequest,
    Operation, ProgressFilePlan,
};
use ccm_reborn::profile_switch::{
    classify_profile_save, finish_profile_plan, inspected_save_verdict, is_campaign_owned_save, other_profiles_warning,
    ownership_warning, profile_store_label, progress_update, source_profile_key, target_profile_dependency_names,
    untouched_profile_plan, ProfileSkip, SaveClass,
};
use ccm_reborn::state::ManagedFile;

const HELLO_SHA256: &str = "185f8db32271fe25f561a6fc938b2e264306ec304eda518007d1764826381969";

fn request(id: &str, title: &str) -> InstallRequest {
    InstallRequest {
        campaign_id: id.into(),
        title: title.into(),
        author: String::new(),
        version: String::new(),
        profile_dir: None,
        archive_source: "/a.zip".into(),
        sha256: HELLO_SHA256.into(),
        package_size: None,
        game_dir: "/g".into(),
    }
}

fn plan_file(relative: &str, action: &str, kind: &str, size: u64) -> ProgressFilePlan {
    ProgressFilePlan {
        relative_path: relative.into(),
        source: String::new(),
        destination: String::new(),
        kind: kind.into(),
        action: action.into(),
        size,
        sha256: String::new(),
        detail: None,
    }
}

#[test]
fn digests_are_lowercase_hex_of_sha256() {
    assert_eq!(sha256_hex_of_text("Hello"), HELLO_SHA256);
    assert_eq!(sha256_hex_of_bytes(b"Hello"), HELLO_SHA256);
    assert_eq!(profile_store_key("Hello"), HELLO_SHA256);
    assert_ne!(profile_store_key("/a"), profile_store_key("/b"));
}

#[test]
fn fresh_names_use_new_uuids() {
    assert_eq!(backup_dir_name("mod", "u"), "backups/mod-u");
    let a = new_backup_dir("mod");
    let b = new_backup_dir("mod");
    assert!(a.starts_with("backups/mod-"));
    assert_eq!(a.len(), "backups/mod-".len() + 36);
    assert_ne!(a, b);
    assert_eq!(new_operation_id().len(), 36);
}

#[test]
fn package_limits_are_enforced() {
    assert!(validate_archive_entry_count(100_000).is_ok());
    assert_eq!(validate_archive_entry_count(100_001).unwrap_err(), "Package has too many ZIP entries.");
    assert_eq!(check_member_size("big.bin", 536_870_913).unwrap_err(), "Package file big.bin is too large.");
    assert_eq!(add_extracted_size(10, 5).unwrap(), 15);
    assert_eq!(
        add_extracted_size(u64::MAX, 5).unwrap_err(),
        "Package expands beyond the allowed size."
    );
    assert!(check_package_not_empty(0).is_err());
}

#[test]
fn wol_packages_cannot_nest_loose_folders() {
    let ok = vec![
        PackageFilePlan { source: "a".into(), destination: "Maps/Campaign/a.SC2Map/x".into(), size: 1 },
        PackageFilePlan { source: "b".into(), destination: "Maps/Campaign/b.SC2Map".into(), size: 1 },
        PackageFilePlan { source: "c".into(), destination: "Mods/C.SC2Mod/x".into(), size: 1 },
    ];
    assert!(refuse_nested_wol_package("Maps/Campaign", &ok).is_ok());
    let nested = vec![PackageFilePlan { source: "Pkg/swarm/z.SC2Map".into(), destination: "Maps/Campaign/swarm/z.SC2Map".into(), size: 1 }];
    assert!(refuse_nested_wol_package("Maps/Campaign", &nested)
        .unwrap_err()
        .starts_with("WoL package file Pkg/swarm/z.SC2Map targets an ambiguous nested"));
    assert!(refuse_nested_wol_package("Maps/Campaign/swarm", &nested).is_ok());
}

#[test]
fn install_records_originals_and_package_files_once() {
    let originals = vec!["Maps/Campaign/a.SC2Map".to_string(), "Maps/Campaign/b.SC2Map".to_string(), "Maps/Campaign/a.SC2Map".to_string()];
    let staged = vec![
        ("Maps/Campaign/a.SC2Map".to_string(), "h1".to_string()),
        ("Maps/Campaign/c.SC2Map".to_string(), "h2".to_string()),
    ];
    let files = managed_files_for_install(&originals, "backups/x", &staged);
    assert_eq!(
        files,
        vec![
            ManagedFile {
                destination: "Maps/Campaign/a.SC2Map".into(),
                original_existed: true,
                backup_path: Some("backups/x/Maps/Campaign/a.SC2Map".into()),
                installed_sha256: Some("h1".into()),
            },
            ManagedFile {
                destination: "Maps/Campaign/b.SC2Map".into(),
                original_existed: true,
                backup_path: Some("backups/x/Maps/Campaign/b.SC2Map".into()),
                installed_sha256: None,
            },
            ManagedFile {
                destination: "Maps/Campaign/c.SC2Map".into(),
                original_existed: false,
                backup_path: None,
                installed_sha256: Some("h2".into()),
            },
        ]
    );
    let state = managed_state_for_install("m", " T ", " A ", " 1.0 ", "Maps/Campaign", 5, "backups/x".into(), vec!["Maps/Campaign".into()], files);
    assert_eq!(state.title, "T");
    assert_eq!(state.version, "1.0");
    let manifest = installed_manifest_from_staged(
        "m",
        "T",
        "A",
        "1",
        HELLO_SHA256,
        "Maps/Campaign",
        9,
        &vec![
            StagedFile { destination: "Mods/X.SC2Mod/f".into(), source: "p/X.SC2Mod/f".into(), size: 3, sha256: "s".into() },
            StagedFile { destination: "Maps/Campaign/m.SC2Map".into(), source: "p/m.SC2Map".into(), size: 4, sha256: "t".into() },
        ],
    );
    assert_eq!(manifest.files[0].kind, "package dependency");
    assert_eq!(manifest.files[1].kind, "package campaign file");
}

#[test]
fn failed_steps_undo_what_they_must() {
    assert_eq!(failure_response(InstallStep::RestorePrevious), FailureResponse::RollbackProfile);
    assert_eq!(failure_response(InstallStep::ReplaceFiles), FailureResponse::RollbackInstall);
    assert_eq!(failure_response(InstallStep::JournalComplete), FailureResponse::Report);
}

#[test]
fn requests_and_archives_are_checked() {
    assert!(check_request_fields(&request("good", "Title")).is_ok());
    assert_eq!(check_request_fields(&request("good", "  ")).unwrap_err(), "Campaign title is required.");
    assert!(check_request_fields(&request("bad id!", "T")).is_err());
    assert_eq!(
        require_profile_for_live(Operation::Plan, true, Some("  ")).unwrap_err(),
        "Choose the exact StarCraft II account profile before reviewing a live install."
    );
    assert!(require_profile_for_live(Operation::Install, true, Some("/p")).is_ok());
    assert!(require_profile_for_live(Operation::Restore, false, None).is_ok());
    assert!(check_archive(Some(3), 3, HELLO_SHA256, &HELLO_SHA256.to_uppercase()).is_ok());
    assert_eq!(
        check_archive(None, 3, HELLO_SHA256, &"0".repeat(64)).unwrap_err(),
        "The local archive does not match the catalog SHA-256. No files were changed."
    );
    assert_eq!(update_kind(true), "update-existing-install");
}

#[test]
fn plan_entries_describe_each_change() {
    let p = progress_file_plan("/prof", "/prof/Banks/Z.SC2Bank", "bank", "snapshot-current-and-reset-for-mod", None, "/store/yuri", 4, "h".into()).unwrap();
    assert_eq!(p.relative_path, "Banks/Z.SC2Bank");
    assert_eq!(p.destination, "/store/yuri/Banks/Z.SC2Bank");
    assert!(progress_file_plan("/prof", "/else/x", "bank", "a", None, "/s", 1, "h".into()).is_err());
    let f = ManagedFile { destination: "Maps/Campaign/a".into(), original_existed: true, backup_path: None, installed_sha256: None };
    assert_eq!(previous_file_change(&f, "/s", "/d", 1, None).operation, "restore previous original before update");
    assert_eq!(snapshot_file_change("/g/Mods/X.SC2Mod", "Mods/X.SC2Mod", "/b", 1, "h".into()).kind, "existing dependency");
    let change = package_file_change("/a.zip", "P/x.SC2Map", "/g", "Maps/Campaign/x.SC2Map", 2, "abc");
    assert_eq!(change.source, "/a.zip :: P/x.SC2Map");
    assert_eq!(change.detail.as_deref(), Some("archive sha256 abc"));
    let totals = profile_totals(&vec![
        plan_file("a", "snapshot-x", "bank", 3),
        plan_file("b", "restore-y", "campaign-progress", 4),
        plan_file("c", "snapshot-z", "campaign-progress", 5),
    ]);
    assert_eq!((totals.files_to_snapshot, totals.bytes_to_snapshot), (2, 8));
    assert_eq!((totals.files_to_restore, totals.bytes_to_restore), (1, 4));
    assert_eq!(totals.progress_updates, 2);
    let warnings = dry_run_warnings(Some(3), false, vec!["profile note".into()], true, 3, 2);
    assert_eq!(warnings.len(), 6);
    assert!(warnings[0].starts_with("Dry-run only"));
    assert_eq!(warnings[2], "Previous managed install found: 3 package files will be restored or removed before the new package is copied.");
    assert_eq!(warnings[4], "profile note");
}

#[test]
fn profile_switch_decisions() {
    assert_eq!(source_profile_key("", "Maps/Campaign/swarm").unwrap(), "vanilla-heart-of-the-swarm");
    assert_eq!(source_profile_key("yuri", "x").unwrap(), "yuri");
    assert_eq!(source_profile_key("", "x").unwrap_err(), "No campaign profile mapping exists for x.");
    assert_eq!(profile_store_label("a", "b", false), "a → b");
    assert_eq!(profile_store_label("a", "b", true), "b");
    assert_eq!(
        other_profiles_warning(1, "~/p").unwrap(),
        "2 StarCraft II profiles found; selected ~/p and will leave the others untouched."
    );
    assert!(other_profiles_warning(0, "~/p").is_none());
    assert!(ownership_warning(true, Some("Yuri")).unwrap().contains("\"Yuri\""));
    assert!(ownership_warning(false, Some("Yuri")).is_none());
    let spec = campaign_profile_spec("Maps/Campaign/swarm").unwrap();
    assert_eq!(classify_profile_save("Saves/SwarmCampaignSave.SC2Save", &spec), SaveClass::SlotNamed);
    assert_eq!(classify_profile_save("Saves/Campaign/x.SC2Save", &spec), SaveClass::Inspect);
    assert_eq!(classify_profile_save("Saves/Other/x.SC2Save", &spec), SaveClass::Skip);
    assert_eq!(classify_profile_save("Saves/Campaign/x.txt", &spec), SaveClass::Skip);
    let details = SaveDetails {
        maps: vec!["Campaign/Swarm/ZChar02.SC2Map".into()],
        mods: vec!["Mods/Yuri.SC2Mod".into()],
        campaigns: vec![],
    };
    let names = vec!["yuri.sc2mod".to_string()];
    let verdict = inspected_save_verdict(Ok(details.clone()), &spec, &names, "Saves/Campaign/x.SC2Save");
    assert!(verdict.belongs);
    assert_eq!(verdict.detail.as_deref(), Some("map: Campaign/Swarm/ZChar02.SC2Map · mods: Mods/Yuri.SC2Mod"));
    let failed = inspected_save_verdict(Err("bad".into()), &spec, &names, "Saves/Campaign/x.SC2Save");
    assert_eq!(failed.warning.as_deref(), Some("Could not inspect Saves/Campaign/x.SC2Save: bad; it will be left untouched."));
    assert!(is_campaign_owned_save("Saves/Campaign/x.SC2Save", &Some(details.clone()), &spec, &[], true));
    assert!(!is_campaign_owned_save("Saves/Campaign/x.SC2Save", &Some(details), &spec, &[], false));
    assert!(is_campaign_owned_save("Saves/SwarmCampaignSave.SC2Save", &None, &spec, &names, false));
    assert_eq!(
        target_profile_dependency_names("same", &["a.sc2mod".into(), "b.sc2mod".into()], "same", &["b.sc2mod".into()]),
        vec!["b.sc2mod", "a.sc2mod"]
    );
    assert_eq!(target_profile_dependency_names("x", &["a.sc2mod".into()], "y", &[]), Vec::<String>::new());
}

#[test]
fn progress_files_are_merged_or_reset_on_a_switch() {
    let spec = campaign_profile_spec("Maps/Campaign/swarm").unwrap();
    let current = "<a id=\"Swarm\" tutorialfinished=\"1\" campaignfinished=\"1\" />\n";
    assert_eq!(
        progress_update(current, None, &spec).unwrap(),
        "<a id=\"Swarm\" tutorialfinished=\"0\" campaignfinished=\"0\" />\n"
    );
    assert_eq!(
        progress_update(current, Some("<b id='Swarm' tutorialfinished='7' />"), &spec).unwrap(),
        "<b id='Swarm' tutorialfinished='7' />\n"
    );
    assert!(progress_update(current, Some(current), &spec).is_none());
}

#[test]
fn profile_plans_close_with_the_right_note() {
    let untouched = untouched_profile_plan(ProfileSkip::NoProfile);
    assert_eq!(untouched.warnings.len(), 1);
    let plan = finish_profile_plan(
        "~/p".into(),
        "~/s".into(),
        vec![plan_file("b", "restore-x", "bank", 1), plan_file("a", "snapshot-y", "bank", 1)],
        vec![],
        vec![],
        vec![],
        false,
        "swarm",
    );
    assert_eq!(plan.files[0].relative_path, "a");
    assert_eq!(plan.warnings.len(), 2);
    assert_eq!(plan.warnings[1], "Saved swarm profile data will be restored after the current campaign profile is snapshotted.");
}

#[test]
fn install_refuses_a_wrong_archive_hash_and_an_orphan_manifest() {
    assert!(check_archive_hash("ab12", "ab12").is_ok());
    assert_eq!(
        check_archive_hash("ab12", "ab13").unwrap_err(),
        "The downloaded archive does not match the catalog SHA-256. Installation stopped."
    );
    assert!(refuse_orphan_manifest(true, true, "/g/m.json").is_ok());
    assert!(refuse_orphan_manifest(false, false, "/g/m.json").is_ok());
    assert_eq!(
        refuse_orphan_manifest(false, true, "/g/m.json").unwrap_err(),
        "Installed manifest /g/m.json has no active managed state; refusing to delete files. Run recovery or restore first."
    );
}

#[test]
fn backup_copies_each_original_once_in_the_order_found() {
    let found: Vec<String> =
        ["Mods/A.SC2Mod/x", "Maps/Campaign/a.SC2Map", "Mods/A.SC2Mod/x", "Maps/Campaign/b.SC2Map"].iter().map(|s| s.to_string()).collect();
    assert_eq!(
        ccm_reborn::install::unique_originals(&found),
        vec!["Mods/A.SC2Mod/x", "Maps/Campaign/a.SC2Map", "Maps/Campaign/b.SC2Map"]
    );
}

#[test]
fn operation_ids_are_hyphenated_lower_case_v4_uuids() {
    let id = ccm_reborn::install::new_operation_id();
    assert_eq!(id.len(), 36);
    for (i, c) in id.chars().enumerate() {
        if [8, 13, 18, 23].contains(&i) {
            assert_eq!(c, '-');
        } else {
            assert!(c.is_ascii_digit() || ('a'..='f').contains(&c), "{id}");
        }
    }
    assert_eq!(id.chars().nth(14), Some('4'));
}

#[test]
fn streamed_sha256_matches_the_digest_of_the_whole() {

    let mut stream = Sha256Stream::new();
    stream.update(b"a");
    stream.update(b"");
    stream.update(b"bc");
    let streamed = stream.finish_hex();
    assert_eq!(streamed, "ba7816bf8f01cfea414140de5dae2223b00361a396177a9cb410ff61f20015ad");
    assert_eq!(streamed, sha256_hex_of_bytes(b"abc"));
    assert_eq!(Sha256Stream::new().finish_hex(), sha256_hex_of_bytes(b""));
}
