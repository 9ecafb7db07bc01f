use ccm_reborn::state::{validate_campaign_id, validate_managed_state, ManagedFile, ManagedState};

fn state(cleared: Vec<&str>, backup: &str, files: Vec<ManagedFile>) -> ManagedState {
    ManagedState {
        format: 1,
        campaign_id: "malformed".into(),
        title: "Malformed".into(),
        author: String::new(),
        version: String::new(),
        target_path: "Maps/Campaign".into(),
        installed_at: 0,
        backup_dir: backup.into(),
        cleared_directories: cleared.into_iter().map(String::from).collect(),
        files,
    }
}

#[test]
fn malformed_state_cannot_claim_a_second_campaign_target() {
    let state = ManagedState {
        format: 1, campaign_id: "malformed".into(), title: "Malformed".into(), author: String::new(),
        version: String::new(), target_path: "Maps/Campaign".into(), installed_at: 0,
        backup_dir: "backups/test".into(),
        cleared_directories: vec!["Maps/Campaign".into(), "Maps/Campaign/swarm".into()],
        files: Vec::new(),
    };
    assert!(validate_managed_state(&state).is_err());
}

#[test]
fn malformed_state_cannot_escape_the_backup_directory() {
    let state = ManagedState {
        format: 1, campaign_id: "malformed".into(), title: "Malformed".into(), author: String::new(),
        version: String::new(), target_path: "Maps/Campaign".into(), installed_at: 0,
        backup_dir: "../../outside".into(), cleared_directories: vec!["Maps/Campaign".into()], files: Vec::new(),
    };
    assert!(validate_managed_state(&state).is_err());
}

fn file(destination: &str, backup: Option<&str>) -> ManagedFile {
    ManagedFile {
        destination: destination.into(),
        original_existed: backup.is_some(),
        backup_path: backup.map(String::from),
        installed_sha256: None,
    }
}

#[test]
fn wol_state_owns_only_its_own_files_and_mods() {
    let ok = state(vec!["Maps/Campaign"], "backups/x", vec![
        file("Maps/Campaign/liberty01.SC2Map", Some("backups/x/Maps/Campaign/liberty01.SC2Map")),
        file("Maps/Campaign/Thing.SC2Mod/Base.SC2Data", None),
        file("Mods/Shared.SC2Mod/Core.txt", None),
    ]);
    assert_eq!(validate_managed_state(&ok), Ok(()));
    let hots_file = state(vec!["Maps/Campaign"], "backups/x", vec![file("Maps/Campaign/swarm/zchar01.SC2Map", None)]);
    assert_eq!(
        validate_managed_state(&hots_file).unwrap_err(),
        "Managed installation state contains a file outside its campaign target or Mods."
    );
    let manager = state(vec!["Maps/Campaign"], "backups/x", vec![file(".ccm-reborn/state.json", None)]);
    assert_eq!(validate_managed_state(&manager).unwrap_err(), "Managed installation state has an invalid destination.");
    let bad_backup = state(vec!["Maps/Campaign"], "backups/x", vec![file("Mods/A.SC2Mod", Some("elsewhere/A"))]);
    assert_eq!(validate_managed_state(&bad_backup).unwrap_err(), "Managed installation state has an invalid backup path.");
}

#[test]
fn state_with_wrong_format_or_id_is_rejected() {
    let mut s = state(vec!["Maps/Campaign"], "backups/x", Vec::new());
    s.format = 2;
    assert_eq!(validate_managed_state(&s).unwrap_err(), "Managed installation state has an unsupported format.");
    let mut s = state(vec!["Maps/Campaign"], "backups/x", Vec::new());
    s.campaign_id = "has space".into();
    assert_eq!(
        validate_managed_state(&s).unwrap_err(),
        "Campaign IDs may use only letters, numbers, dashes, and underscores."
    );
    let mut s = state(vec!["Maps/Other"], "backups/x", Vec::new());
    s.target_path = "Maps/Other".into();
    assert_eq!(validate_managed_state(&s).unwrap_err(), "Managed installation state has an invalid campaign target.");
}

#[test]
fn target_falls_back_to_the_first_cleared_directory() {
    let mut s = state(vec!["Maps/Campaign/void"], "backups/x", Vec::new());
    s.target_path = String::new();
    assert_eq!(s.target_path_or_first_clear(), "Maps/Campaign/void");
    s.cleared_directories.clear();
    assert_eq!(s.target_path_or_first_clear(), "Maps/Campaign");
}

#[test]
fn campaign_ids_are_limited_to_eighty_safe_characters() {
    assert!(validate_campaign_id("nightmare-v1_2").is_ok());
    assert!(validate_campaign_id("").is_err());
    assert!(validate_campaign_id(&"a".repeat(81)).is_err());
    assert!(validate_campaign_id(&"a".repeat(80)).is_ok());
    assert!(validate_campaign_id("Юри").is_err());
}
