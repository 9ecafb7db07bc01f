use ccm_reborn::install::sha256_hex_of_bytes;
use ccm_reborn::profile_core::{
    compare_snapshot, read_installed_manifest, sort_file_digests, sort_progress_summaries,
    write_installed_manifest_atomic, CampaignProgressSummary, FileDigest, InstalledFile, InstalledManifest,
    ObservedFile, ProfileIdentity, ProgressState, INSTALLED_MANIFEST_SCHEMA_VERSION,
};

fn summary(id: &str, title: &str, state: ProgressState, last: Option<u64>) -> CampaignProgressSummary {
    let identity = ProfileIdentity::new(id, 1, id).unwrap();
    CampaignProgressSummary {
        schema_version: 1,
        profile_key: identity.profile_key,
        family_id: identity.family_id,
        major_version: identity.major_version,
        campaign_id: identity.campaign_id,
        branch: "heart-of-the-swarm".into(),
        title: title.into(),
        author: "test".into(),
        version: "1.0".into(),
        is_current: false,
        profile_present: true,
        state,
        last_played_at: last,
        last_played_source: Some("manifest".into()),
        last_mission: None,
        last_successful_mission: None,
        last_map: None,
        mission_completed_count: None,
        save_count: 1,
        save_bytes: 1,
        warnings: Vec::new(),
    }
}

#[test]
fn major_version_identity_is_stable_for_minor_updates() {
    let one = ProfileIdentity::new("nightmare", 1, "nightmare-v1").unwrap();
    let one_update = ProfileIdentity::new("nightmare", 1, "nightmare-v1").unwrap();
    let two = ProfileIdentity::new("nightmare", 2, "nightmare-v2").unwrap();
    assert_eq!(one.profile_key, one_update.profile_key);
    assert_ne!(one.profile_key, two.profile_key);
}

#[test]
fn summaries_sort_progress_and_last_played_within_a_branch() {
    let mut values = vec![
        summary("old", "Old", ProgressState::InProgress, Some(10)),
        summary("new", "New", ProgressState::InProgress, Some(20)),
        summary("none", "None", ProgressState::NotStarted, None),
    ];
    sort_progress_summaries(&mut values);
    assert_eq!(values.iter().map(|value| value.campaign_id.as_str()).collect::<Vec<_>>(), ["new", "old", "none"]);
}

#[test]
fn profile_key_joins_trimmed_family_and_major_version() {
    let identity = ProfileIdentity::new("  nightmare ", 12, "nightmare-v12").unwrap();
    assert_eq!(identity.family_id, "nightmare");
    assert_eq!(identity.profile_key, "nightmare@12");
}

#[test]
fn profile_identity_rejects_bad_components_and_zero_major() {
    assert_eq!(
        ProfileIdentity::new("bad id", 1, "x").unwrap_err(),
        "familyId may use only letters, numbers, dots, dashes, and underscores."
    );
    assert_eq!(
        ProfileIdentity::new("ok", 1, "").unwrap_err(),
        "campaignId may use only letters, numbers, dots, dashes, and underscores."
    );
    assert_eq!(ProfileIdentity::new("ok", 0, "x").unwrap_err(), "majorVersion must be greater than zero.");
    assert!(ProfileIdentity::new(&"a".repeat(101), 1, "x").is_err());
}

#[test]
fn summaries_with_equal_progress_fall_back_to_title_then_id() {
    let mut values = vec![
        summary("b-id", "beta", ProgressState::Completed, Some(5)),
        summary("a-id", "Alpha", ProgressState::Completed, Some(5)),
        summary("c-id", "Alpha", ProgressState::Completed, Some(5)),
        summary("z-id", "Zed", ProgressState::Unknown, Some(99)),
    ];
    sort_progress_summaries(&mut values);
    assert_eq!(
        values.iter().map(|value| value.campaign_id.as_str()).collect::<Vec<_>>(),
        ["a-id", "c-id", "b-id", "z-id"]
    );
}

fn manifest() -> InstalledManifest {
    InstalledManifest {
        schema_version: INSTALLED_MANIFEST_SCHEMA_VERSION,
        campaign_id: "nightmare-v1".into(),
        title: "Nightmare".into(),
        author: "Test".into(),
        version: "1.35".into(),
        package_sha256: "a".repeat(64),
        target_path: "Maps/Campaign/swarm".into(),
        installed_at: 1,
        files: vec![InstalledFile {
            destination: "Maps/Campaign/swarm/zchar01.SC2Map".into(),
            source: "Nightmare/zchar01.SC2Map".into(),
            size: 3,
            sha256: "b".repeat(64),
            kind: "campaign file".into(),
        }],
    }
}

#[test]
fn installed_manifest_passes_the_write_and_the_read_checks() {
    let value = manifest();
    assert_eq!(write_installed_manifest_atomic(&value), Ok(()));
    assert_eq!(read_installed_manifest(value.clone()).unwrap(), value);
}

#[test]
fn installed_manifest_checks_reject_each_bad_entry() {
    let mut value = manifest();
    value.schema_version = 2;
    assert_eq!(write_installed_manifest_atomic(&value).unwrap_err(), "Unsupported installed manifest schema 2.");
    let mut value = manifest();
    value.files.clear();
    assert_eq!(write_installed_manifest_atomic(&value).unwrap_err(), "Installed manifest cannot be empty.");
    assert_eq!(read_installed_manifest(value).unwrap_err(), "Installed manifest is empty.");
    let mut value = manifest();
    value.files[0].sha256 = "g".repeat(64);
    assert_eq!(write_installed_manifest_atomic(&value).unwrap_err(), "Installed manifest contains an invalid file entry.");
    assert_eq!(read_installed_manifest(value).unwrap_err(), "Installed manifest contains an invalid file hash.");
    let mut value = manifest();
    value.files[0].destination = ".ccm-reborn/state.json".into();
    assert_eq!(write_installed_manifest_atomic(&value), Ok(()));
    assert_eq!(read_installed_manifest(value).unwrap_err(), "Installed manifest cannot own CCM manager files.");
    let mut value = manifest();
    value.files[0].destination = "Maps/../outside".into();
    assert_eq!(write_installed_manifest_atomic(&value).unwrap_err(), "Path cannot be absolute or contain . / .. segments.");
}

fn digest(path: &str, size: u64, sha: &str) -> FileDigest {
    FileDigest { relative_path: path.into(), size, sha256: sha.into() }
}

#[test]
fn roundtrip_report_lists_missing_and_changed_files() {
    let expected = vec![digest("Saves/Yuri.SC2Save", 9, "aa"), digest("Banks/ZCampaign.SC2Bank", 9, "bb")];
    let same = vec![
        ObservedFile { present: true, size: 9, sha256: "aa".into() },
        ObservedFile { present: true, size: 9, sha256: "bb".into() },
    ];
    assert!(compare_snapshot(&expected, &same).unwrap().equal);
    let drift = vec![
        ObservedFile { present: true, size: 12, sha256: "cc".into() },
        ObservedFile { present: false, size: 0, sha256: String::new() },
    ];
    let report = compare_snapshot(&expected, &drift).unwrap();
    assert!(!report.equal);
    assert_eq!(report.checked_files, 2);
    assert_eq!(report.changed, vec!["Saves/Yuri.SC2Save"]);
    assert_eq!(report.missing, vec!["Banks/ZCampaign.SC2Bank"]);
    let bad = vec![digest("../escape", 1, "aa")];
    assert!(compare_snapshot(&bad, &same[..1]).is_err());
}

#[test]
fn digests_sort_by_relative_path() {
    let mut values = vec![digest("b", 1, "x"), digest("a/z", 1, "x"), digest("a", 1, "x")];
    sort_file_digests(&mut values);
    assert_eq!(values.iter().map(|d| d.relative_path.as_str()).collect::<Vec<_>>(), ["a", "a/z", "b"]);
}

#[test]
fn sorting_sorted_summaries_again_changes_nothing() {
    let mut summaries = vec![
        summary("b", "Beta", ProgressState::NotStarted, None),
        summary("a", "Alpha", ProgressState::InProgress, Some(5)),
        summary("c", "Alpha", ProgressState::InProgress, Some(5)),
        summary("d", "Delta", ProgressState::InProgress, Some(9)),
    ];
    sort_progress_summaries(&mut summaries);
    let once = summaries.clone();
    sort_progress_summaries(&mut summaries);
    assert_eq!(summaries, once);
}

#[test]
fn snapshot_of_identical_bytes_compares_equal() {
    let files: [(&str, &[u8]); 2] = [("Banks/ZCampaign.SC2Bank", b"bank"), ("Saves/Yuri.SC2Save", b"yuri save")];
    let expected: Vec<FileDigest> = files
        .iter()
        .map(|(path, bytes)| FileDigest { relative_path: path.to_string(), size: bytes.len() as u64, sha256: sha256_hex_of_bytes(bytes) })
        .collect();
    let observe = |bytes: &[u8]| ObservedFile { present: true, size: bytes.len() as u64, sha256: sha256_hex_of_bytes(bytes) };
    let same: Vec<ObservedFile> = files.iter().map(|(_, bytes)| observe(bytes)).collect();
    assert!(compare_snapshot(&expected, &same).unwrap().equal);
    let mutated = vec![observe(b"bank"), observe(b"abathur save")];
    let report = compare_snapshot(&expected, &mutated).unwrap();
    assert!(!report.equal);
    assert_eq!(report.changed, vec!["Saves/Yuri.SC2Save"]);
}
