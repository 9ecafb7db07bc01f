use ccm_reborn::state::{ManagedFile, ManagedState};
use ccm_reborn::state_store::{
    legacy_owns_target, legacy_state_for_target, read_managed_states, recorded_state_for_target, StateEntry,
};

fn state(target: &str) -> ManagedState {
    ManagedState {
        format: 1,
        campaign_id: "demo".into(),
        title: "Demo".into(),
        author: String::new(),
        version: "1".into(),
        target_path: target.into(),
        installed_at: 0,
        backup_dir: "backups/demo-1".into(),
        cleared_directories: vec![target.into()],
        files: vec![ManagedFile {
            destination: format!("{target}/a.SC2Map"),
            original_existed: false,
            backup_path: None,
            installed_sha256: Some("aa".into()),
        }],
    }
}

fn entry(path: &str, target: &str) -> StateEntry {
    StateEntry { path: path.into(), state: Ok(state(target)) }
}

#[test]
fn managed_states_are_read_per_branch_and_sorted() {
    let entries = vec![
        entry("/g/.ccm-reborn/states/Maps_Campaign_swarm.json", "Maps/Campaign/swarm"),
        entry("/g/.ccm-reborn/states/Maps_Campaign.json", "Maps/Campaign"),
    ];
    let states = read_managed_states("/g", entries, Ok(Some(state("Maps/Campaign/void")))).unwrap();
    let targets: Vec<&str> = states.iter().map(|s| s.target_path.as_str()).collect();
    assert_eq!(targets, vec!["Maps/Campaign", "Maps/Campaign/swarm", "Maps/Campaign/void"]);

    // The legacy record does not add a second state for a branch that has one.
    let entries = vec![entry("/g/.ccm-reborn/states/Maps_Campaign.json", "Maps/Campaign")];
    let states = read_managed_states("/g", entries, Ok(Some(state("Maps/Campaign")))).unwrap();
    assert_eq!(states.len(), 1);
}

#[test]
fn misplaced_or_duplicate_state_files_are_refused() {
    let message = "Managed slot states are ambiguous or do not match their filenames; no files were changed.".to_string();
    let misplaced = vec![entry("/g/.ccm-reborn/states/Other.json", "Maps/Campaign")];
    assert_eq!(read_managed_states("/g", misplaced, Ok(None)), Err(message.clone()));
    let twice = vec![
        entry("/g/.ccm-reborn/states/Maps_Campaign.json", "Maps/Campaign"),
        entry("/g/.ccm-reborn/states/Maps_Campaign.json", "Maps/Campaign"),
    ];
    assert_eq!(read_managed_states("/g", twice, Ok(None)), Err(message));
    let unreadable = vec![StateEntry { path: "/g/x.json".into(), state: Err("corrupt".into()) }];
    assert_eq!(read_managed_states("/g", unreadable, Ok(None)), Err("corrupt".to_string()));
    assert_eq!(read_managed_states("/g", Vec::new(), Err("legacy corrupt".into())), Err("legacy corrupt".to_string()));
}

#[test]
fn a_branch_state_must_match_its_file_name() {
    assert_eq!(recorded_state_for_target("Maps/Campaign", Ok(state("Maps/Campaign"))), Ok(Some(state("Maps/Campaign"))));
    assert_eq!(
        recorded_state_for_target("Maps/Campaign", Ok(state("Maps/Campaign/swarm"))),
        Err("Managed slot state does not match its target filename; no files were changed.".to_string())
    );
    assert_eq!(legacy_state_for_target("Maps/Campaign/swarm", Some(state("Maps/Campaign"))), None);
    assert_eq!(legacy_state_for_target("Maps/Campaign", Some(state("Maps/Campaign"))), Some(state("Maps/Campaign")));
    assert!(legacy_owns_target(&Some(state("Maps/Campaign")), "Maps/Campaign"));
    assert!(!legacy_owns_target(&None, "Maps/Campaign"));
}
