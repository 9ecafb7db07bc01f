use ccm_reborn::journal::PathKind;
use ccm_reborn::migration::{
    check_account_store, check_legacy_migration, legacy_migration, migrated_manifest, migration_temporary_dir,
    reject_ambiguous_legacy_profile_store,
};
use ccm_reborn::progress::{failure_log_entry, should_emit_download, status_log_entry, LastDownloadEvent};
use ccm_reborn::resume::CampaignProfileResumeManifest;

#[test]
fn legacy_snapshots_are_used_only_once_imported() {
    let legacy = "/h/.ccm-reborn/profiles/paintball";
    assert_eq!(reject_ambiguous_legacy_profile_store("", legacy, true, false, &Err("x".into()), false), Ok(()));
    assert_eq!(reject_ambiguous_legacy_profile_store("paintball", legacy, false, false, &Err("x".into()), false), Ok(()));
    assert_eq!(
        reject_ambiguous_legacy_profile_store("paintball", legacy, true, true, &Ok(PathKind::Directory), true),
        Ok(())
    );
    let refused = reject_ambiguous_legacy_profile_store("paintball", legacy, true, true, &Ok(PathKind::Symlink), true);
    assert_eq!(
        refused,
        Err("Legacy CCM profile snapshot /h/.ccm-reborn/profiles/paintball is not tied to an SC2 account. It was left untouched; migrate or remove it explicitly before switching this campaign.".to_string())
    );
    assert!(reject_ambiguous_legacy_profile_store("paintball", legacy, true, false, &Ok(PathKind::Directory), true).is_err());
    assert!(reject_ambiguous_legacy_profile_store("paintball", legacy, true, true, &Ok(PathKind::Directory), false).is_err());
    assert!(reject_ambiguous_legacy_profile_store("bad id!", legacy, false, false, &Err("x".into()), false).is_err());
}

#[test]
fn migration_copies_a_legacy_snapshot_without_removing_its_rollback_copy() {
    let legacy = "/h/.ccm-reborn/profiles/paintball";
    assert_eq!(check_legacy_migration("paintball", legacy, &Ok(PathKind::Directory), false), Ok(()));
    assert_eq!(
        check_legacy_migration("paintball", legacy, &Err("missing".into()), false),
        Err("Legacy CCM profile snapshot /h/.ccm-reborn/profiles/paintball was not found.".to_string())
    );
    assert_eq!(
        check_legacy_migration("paintball", legacy, &Ok(PathKind::Symlink), false),
        Err("Legacy CCM profile snapshot must be a regular directory.".to_string())
    );
    assert_eq!(
        check_legacy_migration("paintball", legacy, &Ok(PathKind::Directory), true),
        Err("The selected account already has a CCM profile for paintball; it was not overwritten.".to_string())
    );
    assert_eq!(
        migration_temporary_dir("/h/.ccm-reborn/profiles/accounts/test-account", "paintball", "u-1"),
        "/h/.ccm-reborn/profiles/accounts/test-account/.paintball.migrating-u-1"
    );
    let manifest = CampaignProfileResumeManifest {
        format: 1,
        campaign_id: "paintball".into(),
        target_path: "Maps/Campaign/swarm".into(),
        dependency_names: vec!["paintball.sc2mod".into()],
        captured_at: 123,
        legacy_migrated: false,
    };
    let migrated = migrated_manifest(manifest.clone());
    assert!(migrated.legacy_migrated);
    assert_eq!(migrated.captured_at, 123);
    assert_eq!(migrated.dependency_names, manifest.dependency_names);
    let result = legacy_migration("paintball", 2);
    assert_eq!(result.files_copied, 2);
    assert_eq!(result.campaign_id, "paintball");
    assert_eq!(check_account_store(&Ok(PathKind::Directory)), Ok(()));
    assert_eq!(
        check_account_store(&Ok(PathKind::Symlink)),
        Err("The selected account's CCM profile store is not a regular directory.".to_string())
    );
}

#[test]
fn download_events_are_throttled_but_completion_is_always_reported() {
    assert!(should_emit_download(None, 1, 100));
    let recent = LastDownloadEvent { bytes: 1000, elapsed_millis: 10 };
    assert!(!should_emit_download(Some(recent), 1000 + 300_000, 10_000_000));
    let later = LastDownloadEvent { bytes: 1000, elapsed_millis: 300 };
    assert!(should_emit_download(Some(later), 1000 + 262_144, 10_000_000));
    assert!(!should_emit_download(Some(later), 1000 + 262_143, 10_000_000));
    assert!(should_emit_download(Some(recent), 10_000_000, 10_000_000));
    assert_eq!(status_log_entry("op-1", "downloading", "Downloading"), "operation=op-1 phase=downloading Downloading");
    assert_eq!(failure_log_entry("op-1", "install", "~/x failed"), "operation=op-1 phase=install error=~/x failed");
}
