use ccm_reborn::journal::{
    check_pending_install_journal, legacy_journal_committed, needs_file_check, recovery_error, recovery_plan,
    recovery_target, validate_pending_install_journal, JournalObservations, PathKind, PendingInstallJournal,
    PreviousInstallSnapshot, PreviousInstalledFile, ProfileBackupEntry, ProfileTransaction,
};
use ccm_reborn::state::ManagedState;

fn state(backup: &str) -> ManagedState {
    ManagedState {
        format: 1,
        campaign_id: "mod".into(),
        title: "Mod".into(),
        author: String::new(),
        version: String::new(),
        target_path: "Maps/Campaign".into(),
        installed_at: 0,
        backup_dir: backup.into(),
        cleared_directories: vec!["Maps/Campaign".into()],
        files: vec![],
    }
}

fn journal(entries: Vec<ProfileBackupEntry>, roots: Vec<&str>, previous: Option<PreviousInstallSnapshot>) -> PendingInstallJournal {
    PendingInstallJournal {
        format: 1,
        profile_transaction: ProfileTransaction { entries },
        profile_roots: roots.into_iter().map(String::from).collect(),
        previous_install: previous,
        new_state: None,
        completed: false,
    }
}

fn observed(roots: usize, entries: usize, staged: usize) -> JournalObservations {
    JournalObservations {
        root_approved: vec![true; roots],
        root_kinds: vec![Some(PathKind::Directory); roots],
        entry_kinds: vec![Some(PathKind::File); entries],
        backup_kinds: vec![Some(PathKind::File); entries],
        snapshot_kind: Some(PathKind::Directory),
        staged_kinds: vec![Some(PathKind::File); staged],
    }
}

#[test]
fn a_well_formed_journal_is_accepted() {
    let entry = ProfileBackupEntry {
        path: "/profile/Banks/Z.SC2Bank".into(),
        backup: Some("/g/.ccm-reborn/staging/op/profile-rollback/00000000".into()),
    };
    let previous = PreviousInstallSnapshot {
        state: state("backups/old"),
        backup_snapshot: "/g/.ccm-reborn/staging/op/previous-install-backup".into(),
        files: vec![PreviousInstalledFile {
            destination: "Maps/Campaign/a.SC2Map".into(),
            staged_path: "/g/.ccm-reborn/staging/op/previous-install-files/Maps/Campaign/a.SC2Map".into(),
        }],
        manifest: None,
    };
    let j = journal(vec![entry], vec!["/profile"], Some(previous));
    assert!(validate_pending_install_journal(&j, &observed(1, 1, 1), "/g").is_ok());
    assert!(check_pending_install_journal(&j, &observed(1, 1, 1), "/g").is_ok());
}

#[test]
fn journals_pointing_outside_their_roots_are_refused() {
    let outside = journal(vec![ProfileBackupEntry { path: "/etc/passwd".into(), backup: None }], vec!["/profile"], None);
    assert_eq!(
        validate_pending_install_journal(&outside, &observed(1, 1, 0), "/g").unwrap_err(),
        "Pending install journal references a profile path outside the selected SC2 profile."
    );
    let escaping = journal(vec![ProfileBackupEntry { path: "/profile/../etc/x".into(), backup: None }], vec!["/profile"], None);
    assert!(validate_pending_install_journal(&escaping, &observed(1, 1, 0), "/g").is_err());
    let rootless = journal(vec![ProfileBackupEntry { path: "/profile/a".into(), backup: None }], vec![], None);
    assert_eq!(
        validate_pending_install_journal(&rootless, &observed(0, 1, 0), "/g").unwrap_err(),
        "Pending install journal has profile changes but no approved profile roots."
    );
    let mut unapproved = observed(1, 1, 0);
    unapproved.root_approved = vec![false];
    let ok_entry = journal(vec![ProfileBackupEntry { path: "/profile/a".into(), backup: None }], vec!["/profile"], None);
    assert_eq!(
        validate_pending_install_journal(&ok_entry, &unapproved, "/g").unwrap_err(),
        "Pending install journal has a profile root outside SC2 or CCM's profile store."
    );
    let bad_backup = journal(
        vec![ProfileBackupEntry { path: "/profile/a".into(), backup: Some("/tmp/elsewhere".into()) }],
        vec!["/profile"],
        None,
    );
    assert_eq!(
        validate_pending_install_journal(&bad_backup, &observed(1, 1, 0), "/g").unwrap_err(),
        "Pending install journal has an invalid profile rollback backup path."
    );
    let mut symlinked = observed(1, 1, 0);
    symlinked.entry_kinds = vec![Some(PathKind::Symlink)];
    assert_eq!(
        validate_pending_install_journal(&ok_entry, &symlinked, "/g").unwrap_err(),
        "Pending install journal references an unsafe profile file."
    );
    let mut wrong_format = ok_entry.clone();
    wrong_format.format = 2;
    assert_eq!(
        check_pending_install_journal(&wrong_format, &observed(1, 1, 0), "/g").unwrap_err(),
        "Pending install journal has an unsupported format."
    );
}

#[test]
fn recovery_leaves_finished_installs_and_undoes_the_rest() {
    let mut j = journal(vec![], vec![], None);
    j.new_state = Some(state("backups/new"));
    assert_eq!(recovery_target(&j).as_deref(), Some("Maps/Campaign"));
    let finished = recovery_plan(&j, &Some(state("backups/new")), false);
    assert!(finished.finished);
    let undo = recovery_plan(&j, &Some(state("backups/other")), false);
    assert!(!undo.finished && undo.undo_new_install && undo.rollback_profile && !undo.restore_previous);

    let mut k = journal(vec![], vec![], Some(PreviousInstallSnapshot {
        state: state("backups/old"),
        backup_snapshot: "/g/.ccm-reborn/staging/x/b".into(),
        files: vec![],
        manifest: None,
    }));
    k.new_state = None;
    assert!(needs_file_check(&k, &Some(state("backups/old"))));
    let intact = recovery_plan(&k, &Some(state("backups/old")), true);
    assert!(!intact.restore_previous && intact.rollback_profile);
    let broken = recovery_plan(&k, &Some(state("backups/old")), false);
    assert!(broken.restore_previous);
    k.completed = true;
    assert!(recovery_plan(&k, &None, false).finished);
    assert_eq!(
        recovery_error(&vec!["a".into(), "b".into()]).unwrap(),
        "Interrupted install recovery could not finish; no further files were changed: a; b"
    );
    assert!(recovery_error(&vec![]).is_none());
    assert!(legacy_journal_committed("backups/x", &Some(state("backups/x"))));
    assert!(!legacy_journal_committed("backups/x", &None));
}

#[test]
fn windows_profile_roots_and_paths_are_absolute() {
    let entry = ProfileBackupEntry {
        path: "C:\\Users\\me\\Documents\\StarCraft II\\Accounts\\1\\1-S2-1-1\\Banks\\Z.SC2Bank".into(),
        backup: Some("D:/Games/SC2/.ccm-reborn/staging/op/profile-rollback/00000000".into()),
    };
    let j = journal(vec![entry], vec!["C:\\Users\\me\\Documents\\StarCraft II\\Accounts\\1\\1-S2-1-1"], None);
    assert!(validate_pending_install_journal(&j, &observed(1, 1, 0), "D:/Games/SC2").is_ok());

    let unc = journal(
        vec![ProfileBackupEntry { path: "\\\\server\\share\\profile\\a".into(), backup: None }],
        vec!["\\\\server\\share\\profile"],
        None,
    );
    assert!(validate_pending_install_journal(&unc, &observed(1, 1, 0), "/g").is_ok());

    for root in ["\\profile", "C:profile"] {
        let relative = journal(vec![ProfileBackupEntry { path: format!("{root}\\a"), backup: None }], vec![root], None);
        assert!(validate_pending_install_journal(&relative, &observed(1, 1, 0), "/g").is_err(), "{root}");
    }
    let escaping = journal(
        vec![ProfileBackupEntry { path: "C:\\profile\\..\\Windows\\x".into(), backup: None }],
        vec!["C:\\profile"],
        None,
    );
    assert!(validate_pending_install_journal(&escaping, &observed(1, 1, 0), "/g").is_err());
}
