use ccm_reborn::baseline::{
    baseline_backup_root, baseline_restore_plan, check_shared_baseline, dependency_root_in_use,
    new_baseline_backup_dir, new_shared_baseline, shared_baseline_path, SharedDependencyBaseline,
};
use ccm_reborn::inspection::RestoreResult;
use ccm_reborn::journal::{PathKind, PreviousInstalledFile};
use ccm_reborn::restore::{
    backup_file_location, campaign_directory_check, clear_entry_action, destination_is_under_roots,
    file_restore_plan, game_path_prefixes, keep_profile_switch, managed_install_files_match,
    previous_backup_check, previous_file_copies, restore_conflicts, restore_result, roots_outside,
    safe_game_path, shared_dependency_roots, snapshot_plan, state_backup_root, state_dependency_roots,
    ClearAction, FileStep, GameFileCheck, Probe,
};
use ccm_reborn::state::{ManagedFile, ManagedState};
use sha2::Digest;

fn managed(destination: &str, original: bool, backup: Option<&str>, sha: Option<&str>) -> ManagedFile {
    ManagedFile {
        destination: destination.into(),
        original_existed: original,
        backup_path: backup.map(String::from),
        installed_sha256: sha.map(String::from),
    }
}

fn state(target: &str, files: Vec<ManagedFile>) -> ManagedState {
    ManagedState {
        format: 1,
        campaign_id: "demo".into(),
        title: "Demo".into(),
        author: String::new(),
        version: "1".into(),
        target_path: target.into(),
        installed_at: 0,
        backup_dir: "backups/demo-1".into(),
        cleared_directories: vec![target.into()],
        files,
    }
}

fn check(location: Result<&str, &str>, probe: Probe, sha: Result<&str, &str>) -> GameFileCheck {
    GameFileCheck {
        location: location.map(String::from).map_err(String::from),
        probe,
        sha256: sha.map(String::from).map_err(String::from),
        backup_is_file: true,
        backup_sha256: None,
    }
}

fn sorted(mut v: Vec<String>) -> Vec<String> {
    v.sort();
    v
}

#[test]
fn roots_shared_with_another_branch_ignore_case_and_the_branch_itself() {
    let wol = state(
        "Maps/Campaign",
        vec![
            managed("Mods/Foo.SC2Mod/Base.SC2Data", false, None, Some("aa")),
            managed("Mods/Bar.SC2Mod/Base.SC2Data", false, None, Some("bb")),
            managed("Maps/Campaign/a.SC2Map", false, None, Some("cc")),
        ],
    );
    let hots = state("Maps/Campaign/swarm", vec![managed("mods/foo.sc2mod/x", false, None, Some("dd"))]);
    let states = vec![wol.clone(), hots];
    assert_eq!(shared_dependency_roots(&wol, &states), vec!["Mods/Foo.SC2Mod".to_string()]);
    assert!(shared_dependency_roots(&wol, &[wol.clone()]).is_empty());
    assert_eq!(
        sorted(state_dependency_roots(&wol)),
        vec!["Mods/Bar.SC2Mod".to_string(), "Mods/Foo.SC2Mod".to_string()]
    );
    let shared = vec!["Mods/Foo.SC2Mod".to_string()];
    assert_eq!(roots_outside(&wol, &shared, &[]), vec!["Mods/Bar.SC2Mod".to_string()]);
    assert!(roots_outside(&wol, &shared, &["Mods/Bar.SC2Mod".to_string()]).is_empty());
    assert!(destination_is_under_roots("Mods/Foo.SC2Mod/Base.SC2Data/x", &shared));
    assert!(!destination_is_under_roots("Mods/Bar.SC2Mod/x", &shared));
    assert!(!destination_is_under_roots("Maps/Campaign/a.SC2Map", &shared));
}

#[test]
fn restore_reports_every_drifted_file_in_order() {
    let s = state(
        "Maps/Campaign",
        vec![
            managed("Maps/Campaign/a.SC2Map", false, None, Some("aa")),
            managed("Maps/Campaign/b.SC2Map", false, None, Some("bb")),
            managed("Maps/Campaign/c.SC2Map", true, Some("backups/demo-1/Maps/Campaign/c.SC2Map"), None),
            managed("Mods/Foo.SC2Mod/x", false, None, Some("ff")),
            managed("Maps/Campaign/d.SC2Map", true, Some("backups/demo-1/Maps/Campaign/d.SC2Map"), None),
        ],
    );
    let mut c_check = check(Ok("/g/Maps/Campaign/c.SC2Map"), Probe::Found(PathKind::File), Ok("77"));
    c_check.backup_sha256 = Some("77".into());
    let checks = vec![
        check(Ok("/g/Maps/Campaign/a.SC2Map"), Probe::Found(PathKind::File), Ok("aa")),
        check(Ok("/g/Maps/Campaign/b.SC2Map"), Probe::Missing, Err("gone")),
        c_check,
        check(Err("not checked"), Probe::Missing, Err("gone")),
        check(Ok("/g/Maps/Campaign/d.SC2Map"), Probe::Found(PathKind::File), Ok("12")),
    ];
    let shared = vec!["Mods/Foo.SC2Mod".to_string()];
    assert_eq!(
        restore_conflicts(&s, &shared, &checks),
        Ok(vec!["Maps/Campaign/b.SC2Map".to_string(), "Maps/Campaign/d.SC2Map".to_string()])
    );
    // Outside the shared roots the unchecked location fails the restore.
    assert_eq!(restore_conflicts(&s, &[], &checks), Err("not checked".to_string()));
}

#[test]
fn restore_result_counts_files_only_without_conflicts() {
    let s = state("Maps/Campaign", vec![managed("Maps/Campaign/a.SC2Map", false, None, Some("aa"))]);
    let done = restore_result(&Some(s.clone()), Vec::new());
    assert_eq!(done.restored_files, 1);
    assert!(done.conflicts.is_empty());
    let blocked = restore_result(&Some(s), vec!["Maps/Campaign/a.SC2Map".into()]);
    assert_eq!(blocked.restored_files, 0);
    assert_eq!(blocked.conflicts, vec!["Maps/Campaign/a.SC2Map".to_string()]);
    let nothing = restore_result(&None, Vec::new());
    assert_eq!(nothing.restored_files, 0);
    assert!(keep_profile_switch(&Ok(done)));
    assert!(!keep_profile_switch(&Ok(blocked)));
    assert!(!keep_profile_switch(&Err("failed".into())));
    assert!(keep_profile_switch(&Ok(RestoreResult { restored_files: 0, conflicts: Vec::new() })));
}

#[test]
fn force_restore_copies_backups_and_removes_package_files() {
    let s = state(
        "Maps/Campaign",
        vec![
            managed("Maps/Campaign/a.SC2Map", true, Some("backups/demo-1/Maps/Campaign/a.SC2Map"), Some("aa")),
            managed("Mods/Shared.SC2Mod/x", false, None, Some("ss")),
            managed("Maps/Campaign/b.SC2Map", false, None, Some("bb")),
        ],
    );
    let checks = vec![
        check(Ok("/g/Maps/Campaign/a.SC2Map"), Probe::Found(PathKind::File), Ok("aa")),
        check(Ok("/g/Mods/Shared.SC2Mod/x"), Probe::Found(PathKind::File), Ok("ss")),
        check(Ok("/g/Maps/Campaign/b.SC2Map"), Probe::Found(PathKind::File), Ok("bb")),
    ];
    let plan = file_restore_plan("/g", &s, &["Mods/Shared.SC2Mod".to_string()], &[], &checks);
    assert_eq!(plan.error, None);
    assert_eq!(
        plan.steps,
        vec![
            FileStep::Copy {
                from: "/g/.ccm-reborn/backups/demo-1/Maps/Campaign/a.SC2Map".into(),
                to: "/g/Maps/Campaign/a.SC2Map".into(),
            },
            FileStep::RemoveIfFile("/g/Maps/Campaign/b.SC2Map".into()),
        ]
    );
    // Without the shared root, the shared file is removed as well.
    let exact = file_restore_plan("/g", &s, &[], &[], &checks);
    assert_eq!(exact.steps.len(), 3);
    assert_eq!(exact.steps[1], FileStep::RemoveIfFile("/g/Mods/Shared.SC2Mod/x".into()));
}

#[test]
fn force_restore_stops_at_a_missing_backup() {
    let s = state(
        "Maps/Campaign",
        vec![
            managed("Maps/Campaign/b.SC2Map", false, None, Some("bb")),
            managed("Maps/Campaign/a.SC2Map", true, Some("backups/demo-1/a"), None),
            managed("Maps/Campaign/c.SC2Map", false, None, Some("cc")),
        ],
    );
    let mut a_check = check(Ok("/g/Maps/Campaign/a.SC2Map"), Probe::Found(PathKind::File), Ok("aa"));
    a_check.backup_is_file = false;
    let checks = vec![
        check(Ok("/g/Maps/Campaign/b.SC2Map"), Probe::Found(PathKind::File), Ok("bb")),
        a_check,
        check(Ok("/g/Maps/Campaign/c.SC2Map"), Probe::Found(PathKind::File), Ok("cc")),
    ];
    let plan = file_restore_plan("/g", &s, &[], &[], &checks);
    assert_eq!(plan.steps, vec![FileStep::RemoveIfFile("/g/Maps/Campaign/b.SC2Map".into())]);
    assert_eq!(
        plan.error,
        Some("Backup for Maps/Campaign/a.SC2Map is missing; refusing to continue.".to_string())
    );

    let no_path = state("Maps/Campaign", vec![managed("Maps/Campaign/a.SC2Map", true, None, None)]);
    let plan = file_restore_plan("/g", &no_path, &[], &[], &checks[1..2]);
    assert!(plan.steps.is_empty());
    assert_eq!(plan.error, Some("A backup path is missing from the managed state.".to_string()));

    let escaping = state("Maps/Campaign", vec![managed("Maps/Campaign/a.SC2Map", true, Some("elsewhere/a"), None)]);
    let plan = file_restore_plan("/g", &escaping, &[], &[], &checks[1..2]);
    assert_eq!(plan.error, Some("Managed installation state has an invalid backup path.".to_string()));
}

#[test]
fn backup_locations_stay_inside_the_backup_directory() {
    assert_eq!(
        backup_file_location("/g", &Some("backups/demo-1/a".into())),
        Some("/g/.ccm-reborn/backups/demo-1/a".to_string())
    );
    assert_eq!(backup_file_location("/g", &Some("../a".into())), None);
    assert_eq!(backup_file_location("/g", &None), None);
    let s = state("Maps/Campaign", Vec::new());
    assert_eq!(state_backup_root("/g", &s), Ok("/g/.ccm-reborn/backups/demo-1".to_string()));
}

#[test]
fn an_old_install_owns_the_game_only_while_every_package_file_matches() {
    let s = state(
        "Maps/Campaign",
        vec![
            managed("Maps/Campaign/orig.txt", true, Some("backups/demo-1/orig.txt"), None),
            managed("Maps/Campaign/a.SC2Map", false, None, Some("aa")),
        ],
    );
    let good = vec![
        check(Err("unused"), Probe::Missing, Err("unused")),
        check(Ok("/g/Maps/Campaign/a.SC2Map"), Probe::Found(PathKind::File), Ok("aa")),
    ];
    assert_eq!(managed_install_files_match(&s, &good), Ok(true));
    let changed = vec![
        check(Err("unused"), Probe::Missing, Err("unused")),
        check(Ok("/g/Maps/Campaign/a.SC2Map"), Probe::Found(PathKind::File), Ok("ab")),
    ];
    assert_eq!(managed_install_files_match(&s, &changed), Ok(false));
    let missing = vec![
        check(Err("unused"), Probe::Missing, Err("unused")),
        check(Ok("/g/Maps/Campaign/a.SC2Map"), Probe::Missing, Err("unused")),
    ];
    assert_eq!(managed_install_files_match(&s, &missing), Ok(false));
    let linked = vec![
        check(Err("unused"), Probe::Missing, Err("unused")),
        check(Ok("/g/Maps/Campaign/a.SC2Map"), Probe::Found(PathKind::Symlink), Err("unused")),
    ];
    assert_eq!(
        managed_install_files_match(&s, &linked),
        Err("Managed package file /g/Maps/Campaign/a.SC2Map is a symlink; refusing recovery.".to_string())
    );
    let only_originals = state("Maps/Campaign", vec![managed("Maps/Campaign/orig.txt", true, Some("backups/x"), None)]);
    assert_eq!(managed_install_files_match(&only_originals, &good[..1]), Ok(false));
}

#[test]
fn game_paths_refuse_symlinks_and_non_directory_ancestors() {
    assert_eq!(
        game_path_prefixes("/g", "Maps/Campaign/a.SC2Map"),
        Ok(vec!["/g/Maps".to_string(), "/g/Maps/Campaign".to_string(), "/g/Maps/Campaign/a.SC2Map".to_string()])
    );
    assert!(game_path_prefixes("/g", "../a").is_err());
    let dir = Ok(PathKind::Directory);
    let fine = vec![Probe::Found(PathKind::Directory), Probe::Missing, Probe::Missing];
    assert_eq!(
        safe_game_path("/g", "Maps/Campaign/a.SC2Map", &dir, &fine),
        Ok("/g/Maps/Campaign/a.SC2Map".to_string())
    );
    let leaf_file = vec![Probe::Found(PathKind::Directory), Probe::Found(PathKind::Directory), Probe::Found(PathKind::File)];
    assert!(safe_game_path("/g", "Maps/Campaign/a.SC2Map", &dir, &leaf_file).is_ok());
    let linked = vec![Probe::Found(PathKind::Symlink), Probe::Missing, Probe::Missing];
    assert_eq!(
        safe_game_path("/g", "Maps/Campaign/a.SC2Map", &dir, &linked),
        Err("Refusing to use symlinked game path /g/Maps.".to_string())
    );
    let ancestor = vec![Probe::Found(PathKind::Directory), Probe::Found(PathKind::File), Probe::Missing];
    assert_eq!(
        safe_game_path("/g", "Maps/Campaign/a.SC2Map", &dir, &ancestor),
        Err("Game path ancestor /g/Maps/Campaign is not a directory.".to_string())
    );
    assert_eq!(
        safe_game_path("/g", "Maps/Campaign/a.SC2Map", &Ok(PathKind::Symlink), &fine),
        Err("Selected game directory is not a regular directory.".to_string())
    );
    assert_eq!(
        safe_game_path("/g", "Maps/Campaign/a.SC2Map", &Err("no such directory".into()), &fine),
        Err("no such directory".to_string())
    );
    assert_eq!(
        safe_game_path("/g", "/etc/passwd", &dir, &[]),
        Err("Package paths cannot be absolute or use . or .. segments.".to_string())
    );
}

#[test]
fn snapshot_keeps_package_files_and_refuses_drift() {
    let s = state(
        "Maps/Campaign",
        vec![
            managed("Maps/Campaign/orig.txt", true, Some("backups/demo-1/orig.txt"), None),
            managed("Maps/Campaign/a.SC2Map", false, None, Some("aa")),
            managed("Mods/Foo.SC2Mod/x", false, None, Some("ff")),
        ],
    );
    let checks = vec![
        check(Err("unused"), Probe::Missing, Err("unused")),
        check(Ok("/g/Maps/Campaign/a.SC2Map"), Probe::Found(PathKind::File), Ok("aa")),
        check(Ok("/g/Mods/Foo.SC2Mod/x"), Probe::Found(PathKind::File), Ok("other")),
    ];
    let plan = snapshot_plan("/s", &s, "/g/.ccm-reborn/backups/demo-1", true, &checks).unwrap();
    assert!(plan.copy_backup);
    assert_eq!(plan.backup_snapshot, "/s/previous-install-backup");
    assert_eq!(
        plan.files,
        vec![
            PreviousInstalledFile {
                destination: "Maps/Campaign/a.SC2Map".into(),
                staged_path: "/s/previous-install-files/Maps/Campaign/a.SC2Map".into(),
            },
            PreviousInstalledFile {
                destination: "Mods/Foo.SC2Mod/x".into(),
                staged_path: "/s/previous-install-files/Mods/Foo.SC2Mod/x".into(),
            },
        ]
    );
    assert_eq!(
        snapshot_plan("/s", &s, "/g/.ccm-reborn/backups/demo-1", false, &checks),
        Err("Previous backup directory /g/.ccm-reborn/backups/demo-1 is missing; refusing update.".to_string())
    );
    let drifted = vec![
        check(Err("unused"), Probe::Missing, Err("unused")),
        check(Ok("/g/Maps/Campaign/a.SC2Map"), Probe::Found(PathKind::File), Ok("zz")),
        check(Ok("/g/Mods/Foo.SC2Mod/x"), Probe::Found(PathKind::File), Ok("ff")),
    ];
    assert_eq!(
        snapshot_plan("/s", &s, "/b", true, &drifted),
        Err("Active campaign file Maps/Campaign/a.SC2Map was changed outside CCM Reborn; refusing update.".to_string())
    );
    let gone = vec![
        check(Err("unused"), Probe::Missing, Err("unused")),
        check(Ok("/g/Maps/Campaign/a.SC2Map"), Probe::Missing, Err("unused")),
        check(Ok("/g/Mods/Foo.SC2Mod/x"), Probe::Found(PathKind::File), Ok("ff")),
    ];
    assert_eq!(
        snapshot_plan("/s", &s, "/b", true, &gone),
        Err("Active campaign file Maps/Campaign/a.SC2Map is missing outside CCM Reborn; refusing update.".to_string())
    );
    let fresh = state("Maps/Campaign", vec![managed("Maps/Campaign/a.SC2Map", false, None, Some("aa"))]);
    let plan = snapshot_plan("/s", &fresh, "/b", false, &checks[1..2]).unwrap();
    assert!(!plan.copy_backup);
}

#[test]
fn previous_install_comes_back_from_staging() {
    assert_eq!(previous_backup_check("/b", false, &Ok(PathKind::Directory), false), Ok(false));
    assert_eq!(
        previous_backup_check("/b", true, &Ok(PathKind::Directory), false),
        Err("Previous backup path /b unexpectedly exists.".to_string())
    );
    assert_eq!(previous_backup_check("/b", true, &Ok(PathKind::Directory), true), Ok(true));
    assert_eq!(
        previous_backup_check("/b", true, &Ok(PathKind::Symlink), true),
        Err("Previous backup path /b is not a regular CCM backup directory.".to_string())
    );
    let files = vec![
        PreviousInstalledFile { destination: "Maps/Campaign/a.SC2Map".into(), staged_path: "/s/a".into() },
        PreviousInstalledFile { destination: "Mods/Shared.SC2Mod/x".into(), staged_path: "/s/x".into() },
        PreviousInstalledFile { destination: "Maps/Campaign/b.SC2Map".into(), staged_path: "/s/b".into() },
    ];
    let locations = vec![Ok("/g/a".to_string()), Err("unused".to_string()), Err("refused".to_string())];
    let plan = previous_file_copies(&files, &["Mods/Shared.SC2Mod".to_string()], &locations);
    assert_eq!(plan.steps, vec![FileStep::Copy { from: "/s/a".into(), to: "/g/a".into() }]);
    assert_eq!(plan.error, Some("refused".to_string()));
}

#[test]
fn clearing_the_wol_branch_keeps_other_branches() {
    assert_eq!(clear_entry_action("/g/Maps/Campaign/swarm", "swarm", PathKind::Directory), Ok(ClearAction::Keep));
    assert_eq!(
        clear_entry_action("/g/Maps/Campaign/x.SC2Map", "x.SC2Map", PathKind::Directory),
        Ok(ClearAction::RemoveDirectory)
    );
    assert_eq!(clear_entry_action("/g/Maps/Campaign/a.txt", "a.txt", PathKind::File), Ok(ClearAction::RemoveFile));
    assert_eq!(
        clear_entry_action("/g/Maps/Campaign/l", "l", PathKind::Symlink),
        Err("Refusing to clear symlink /g/Maps/Campaign/l.".to_string())
    );
    assert_eq!(campaign_directory_check("/g/Maps/Campaign", true, true), Ok(()));
    assert_eq!(campaign_directory_check("/g/Maps/Campaign", false, false), Ok(()));
    assert_eq!(
        campaign_directory_check("/g/Maps/Campaign", true, false),
        Err("Campaign target /g/Maps/Campaign is not a directory.".to_string())
    );
}

fn baseline(root: &str, existed: bool, was_file: bool) -> SharedDependencyBaseline {
    SharedDependencyBaseline {
        format: 1,
        dependency_root: root.into(),
        original_existed: existed,
        original_was_file: was_file,
        backup_dir: "shared-dependencies/1234".into(),
    }
}

#[test]
fn shared_baselines_are_named_by_the_lower_cased_root() {
    let digest = sha2::Sha256::digest("mods/foo.sc2mod".as_bytes());
    let expected = format!("/g/.ccm-reborn/shared-dependencies/{}.json", hex::encode(digest));
    assert_eq!(shared_baseline_path("/g", "Mods/Foo.SC2Mod"), expected);
    assert_eq!(shared_baseline_path("/g", "mods/FOO.sc2mod"), expected);
    let dir = new_baseline_backup_dir();
    assert!(dir.starts_with("shared-dependencies/"));
    assert_eq!(dir.len(), "shared-dependencies/".len() + 36);
}

#[test]
fn a_baseline_must_match_its_root() {
    assert_eq!(check_shared_baseline(&baseline("Mods/Foo.SC2Mod", true, false), "Mods/Foo.SC2Mod"), Ok(()));
    assert_eq!(
        check_shared_baseline(&baseline("Mods/Bar.SC2Mod", true, false), "Mods/Foo.SC2Mod"),
        Err("Shared dependency baseline does not match its dependency root.".to_string())
    );
    let mut old = baseline("Mods/Foo.SC2Mod", true, false);
    old.format = 2;
    assert!(check_shared_baseline(&old, "Mods/Foo.SC2Mod").is_err());
    assert_eq!(
        check_shared_baseline(&baseline("../Foo.SC2Mod", true, false), "Mods/Foo.SC2Mod"),
        Err("Package paths cannot be absolute or use . or .. segments.".to_string())
    );
}

#[test]
fn baselines_record_and_restore_the_original_dependency() {
    let s = state("Maps/Campaign", vec![managed("Mods/Foo.SC2Mod/x", false, None, Some("ff"))]);
    assert!(dependency_root_in_use("Mods/Foo.SC2Mod", &[s.clone()]));
    assert!(!dependency_root_in_use("Mods/Bar.SC2Mod", &[s]));

    let b = new_shared_baseline("Mods/Foo.SC2Mod", "/g/Mods/Foo.SC2Mod", true, &Ok(PathKind::Directory), "shared-dependencies/1234".into())
        .unwrap();
    assert_eq!(b, baseline("Mods/Foo.SC2Mod", true, false));
    let absent = new_shared_baseline("Mods/Foo.SC2Mod", "/g/Mods/Foo.SC2Mod", false, &Err("gone".into()), "d".into()).unwrap();
    assert!(!absent.original_existed && !absent.original_was_file);
    assert_eq!(
        new_shared_baseline("Mods/Foo.SC2Mod", "/g/Mods/Foo.SC2Mod", true, &Ok(PathKind::Symlink), "d".into()),
        Err("Refusing to baseline symlinked dependency /g/Mods/Foo.SC2Mod.".to_string())
    );
    assert_eq!(
        new_shared_baseline("Mods/Foo.SC2Mod", "/g/Mods/Foo.SC2Mod", true, &Ok(PathKind::Other), "d".into()),
        Err("Dependency /g/Mods/Foo.SC2Mod is neither file nor directory.".to_string())
    );

    assert_eq!(baseline_backup_root("/g", &b), Ok("/g/.ccm-reborn/shared-dependencies/1234".to_string()));
    let plan = baseline_restore_plan("/g", &b, "/g/Mods/Foo.SC2Mod", true, &Ok(PathKind::Directory));
    assert_eq!(plan.remove, Some(true));
    assert_eq!(plan.copy_from, Some("/g/.ccm-reborn/shared-dependencies/1234/content".to_string()));
    assert_eq!(plan.error, None);
    let plan = baseline_restore_plan("/g", &baseline("Mods/Foo.SC2Mod", false, false), "/g/Mods/Foo.SC2Mod", true, &Ok(PathKind::File));
    assert_eq!((plan.remove, plan.copy_from, plan.error), (Some(false), None, None));
    let plan = baseline_restore_plan("/g", &b, "/g/Mods/Foo.SC2Mod", true, &Ok(PathKind::Symlink));
    assert_eq!(plan.remove, None);
    assert_eq!(plan.error, Some("Refusing to restore symlinked dependency /g/Mods/Foo.SC2Mod.".to_string()));
    let mut broken = b.clone();
    broken.backup_dir = "../x".into();
    let plan = baseline_restore_plan("/g", &broken, "/g/Mods/Foo.SC2Mod", false, &Err("gone".into()));
    assert_eq!(plan.remove, None);
    assert_eq!(plan.copy_from, None);
    assert!(plan.error.is_some());
}
