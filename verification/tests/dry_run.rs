use ccm_reborn::dry_run::{dry_run_plan, DryRunFacts, FoundGameFile, PreviousFileFacts, PreviousInstallFacts};
use ccm_reborn::install::PackageFilePlan;
use ccm_reborn::profile_switch::{untouched_profile_plan, ProfileSkip};
use ccm_reborn::state::ManagedFile;

fn game_file(relative: &str, size: u64) -> FoundGameFile {
    FoundGameFile { path: format!("/g/{relative}"), relative: relative.into(), size, sha256: format!("sha-{size}") }
}

fn facts(previous: Option<PreviousInstallFacts>) -> DryRunFacts {
    DryRunFacts {
        operation_id: "op".into(),
        campaign_id: "new-mod".into(),
        title: "New".into(),
        game_directory: "/g".into(),
        target_path: "Maps/Campaign/swarm".into(),
        archive: "/a.zip".into(),
        archive_size: 99,
        archive_sha256: "abc".into(),
        archive_files: 2,
        previous,
        campaign_files: vec![game_file("Maps/Campaign/swarm/old.SC2Map", 10)],
        dependency_files: vec![game_file("Mods/Dep.SC2Mod/Base", 3)],
        backup_root: "/g/.ccm-reborn/backups/new-mod-op".into(),
        package_files: vec![
            PackageFilePlan { source: "New/a.SC2Map".into(), destination: "Maps/Campaign/swarm/a.SC2Map".into(), size: 5 },
            PackageFilePlan { source: "New/Dep.SC2Mod/Base".into(), destination: "Mods/Dep.SC2Mod/Base".into(), size: 6 },
        ],
        dependency_roots: vec!["Mods/Dep.SC2Mod".into()],
        profile: untouched_profile_plan(ProfileSkip::NotStarcraft),
    }
}

fn previous() -> PreviousInstallFacts {
    PreviousInstallFacts {
        campaign_id: "old-mod".into(),
        version: "2".into(),
        files: vec![
            PreviousFileFacts {
                file: ManagedFile {
                    destination: "Maps/Campaign/swarm/old.SC2Map".into(),
                    original_existed: false,
                    backup_path: None,
                    installed_sha256: Some("sha-10".into()),
                },
                source: "/g/Maps/Campaign/swarm/old.SC2Map".into(),
                destination: "/g/Maps/Campaign/swarm/old.SC2Map".into(),
                size: 10,
                sha256: Some("sha-10".into()),
            },
            PreviousFileFacts {
                file: ManagedFile {
                    destination: "Maps/Campaign/swarm/orig.txt".into(),
                    original_existed: true,
                    backup_path: Some("backups/x/Maps/Campaign/swarm/orig.txt".into()),
                    installed_sha256: None,
                },
                source: "/g/.ccm-reborn/backups/x/Maps/Campaign/swarm/orig.txt".into(),
                destination: "/g/Maps/Campaign/swarm/orig.txt".into(),
                size: 1,
                sha256: None,
            },
        ],
        manifest_path: "/g/.ccm-reborn/installed/Maps_Campaign_swarm.json".into(),
        manifest: None,
    }
}

#[test]
fn a_fresh_install_lists_snapshots_then_package_files() {
    let plan = dry_run_plan(facts(None));
    assert_eq!(plan.update_kind, "fresh-install");
    assert_eq!((plan.package_files, plan.package_bytes), (2, 11));
    assert_eq!((plan.campaign_files_to_clear, plan.campaign_bytes_to_clear), (1, 10));
    assert_eq!((plan.dependency_files_to_replace, plan.files_to_backup), (1, 2));
    let changes: Vec<(&str, &str, &str)> = plan
        .file_changes
        .iter()
        .map(|c| (c.operation.as_str(), c.kind.as_str(), c.destination.as_str()))
        .collect();
    assert_eq!(
        changes,
        vec![
            (
                "snapshot before clear/replace",
                "existing campaign file",
                "/g/.ccm-reborn/backups/new-mod-op/Maps/Campaign/swarm/old.SC2Map"
            ),
            ("snapshot before clear/replace", "existing dependency", "/g/.ccm-reborn/backups/new-mod-op/Mods/Dep.SC2Mod/Base"),
            ("install package file", "package campaign file", "/g/Maps/Campaign/swarm/a.SC2Map"),
            ("install package file", "package dependency", "/g/Mods/Dep.SC2Mod/Base"),
        ]
    );
    assert_eq!(plan.file_changes[2].source, "/a.zip :: New/a.SC2Map");
    assert_eq!(plan.previous_install_campaign_id, None);
    assert_eq!(
        plan.warnings,
        vec![
            "Dry-run only: no campaign, save, bank, or dependency files were changed.".to_string(),
            "Applying this plan later requires StarCraft II to be fully closed.".to_string(),
            "StarCraft II executable layout was not detected; account saves and progress were not scanned.".to_string(),
            "Package dependencies will be placed under the game Mods directory.".to_string(),
        ]
    );
}

#[test]
fn an_update_restores_the_previous_install_first() {
    let plan = dry_run_plan(facts(Some(previous())));
    assert_eq!(plan.update_kind, "update-existing-install");
    assert_eq!(plan.previous_install_files, 1);
    assert_eq!(plan.previous_install_campaign_id.as_deref(), Some("old-mod"));
    assert_eq!(plan.previous_install_version.as_deref(), Some("2"));
    assert_eq!(plan.previous_install_sha256, None);
    assert_eq!(plan.file_changes.len(), 6);
    assert_eq!(plan.file_changes[0].operation, "remove previous package file before update");
    assert_eq!(plan.file_changes[1].operation, "restore previous original before update");
    assert_eq!(plan.file_changes[2].operation, "snapshot before clear/replace");
    assert_eq!(plan.warnings[2], "Previous managed install found: 1 package files will be restored or removed before the new package is copied.");
    assert_eq!(
        plan.warnings[3],
        "Previous install uses the legacy managed state; the next successful install will write an exact installed manifest."
    );
}

#[test]
fn plan_warns_when_most_archive_files_are_outside_the_installed_layout() {
    // One metadata file and one map are placed; sixty other files are not.
    let mut mostly_unmatched = facts(None);
    mostly_unmatched.archive_files = 62;
    let plan = dry_run_plan(mostly_unmatched);
    assert!(plan.warnings.iter().any(|w| w.contains("were skipped")), "expected a coverage warning, got {:?}", plan.warnings);
    assert_eq!(
        plan.warnings.last().unwrap(),
        "60 of 62 archive files were skipped because they lie outside the package's installed layout."
    );

    let mut covered = facts(None);
    covered.archive_files = 4;
    let plan = dry_run_plan(covered);
    assert!(!plan.warnings.iter().any(|w| w.contains("were skipped")));
}
