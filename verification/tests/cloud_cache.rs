use ccm_reborn::cloud_cache::{
    add_download_chunk, after_attempt, after_removal, archive_cache_path, attempt_status, cached_archive_matches,
    cached_catalog_text, catalog_cache_path, check_cached_catalog, check_content_length, check_download_size,
    cloud_cache_key, diagnostic_line, finish_download, is_cache_archive_name_exec, log_needs_rotation, log_rotation,
    prune_candidates, prune_step, redact_diagnostic_value, AttemptNext, CacheEntry, CloudDownloadFailure, PruneStep,
    CLOUD_ARCHIVE_CACHE_LIMIT,
};
use ccm_reborn::journal::PathKind;
use ccm_reborn::restore::Probe;
use sha2::Digest;

#[test]
fn cache_names_follow_the_catalog_hashes() {
    let key = hex::encode(sha2::Sha256::digest("https://example.invalid/catalog.json".as_bytes()));
    assert_eq!(cloud_cache_key("https://example.invalid/catalog.json"), key);
    assert_eq!(
        catalog_cache_path("/h/.ccm-reborn/cache/catalogs", "https://example.invalid/catalog.json"),
        format!("/h/.ccm-reborn/cache/catalogs/{key}.json")
    );
    let sha = "a".repeat(64);
    assert_eq!(archive_cache_path("/c", &sha), format!("/c/{sha}.zip"));
}

#[test]
fn cached_archive_must_match_the_catalog_size_and_hash() {
    let hash = "ab".repeat(32);
    let file = Probe::Found(PathKind::File);
    assert_eq!(cached_archive_matches(&file, 16, &Some(Ok(hash.clone())), &hash, 16), Ok(true));
    assert_eq!(cached_archive_matches(&file, 16, &None, &hash, 15), Ok(false));
    assert_eq!(cached_archive_matches(&file, 16, &Some(Ok("cd".repeat(32))), &hash, 16), Ok(false));
    assert_eq!(cached_archive_matches(&Probe::Missing, 0, &None, &hash, 16), Ok(false));
    assert_eq!(
        cached_archive_matches(&Probe::Found(PathKind::Symlink), 16, &None, &hash, 16),
        Err("CCM archive cache entry is not a regular file.".to_string())
    );
    assert_eq!(
        cached_archive_matches(&file, 16, &Some(Err("unreadable".into())), &hash, 16),
        Err("unreadable".to_string())
    );
}

#[test]
fn cached_catalogs_are_small_regular_utf8_files() {
    assert_eq!(check_cached_catalog(&Probe::Found(PathKind::File), 10, 100), Ok(()));
    assert_eq!(
        check_cached_catalog(&Probe::Found(PathKind::File), 101, 100),
        Err("Cached cloud catalog is invalid.".to_string())
    );
    assert_eq!(
        check_cached_catalog(&Probe::Found(PathKind::Symlink), 1, 100),
        Err("Cached cloud catalog is invalid.".to_string())
    );
    assert_eq!(
        check_cached_catalog(&Probe::Missing, 0, 100),
        Err("No cached cloud catalog is available.".to_string())
    );
    assert_eq!(cached_catalog_text(b"{\"campaigns\":[]}"), Ok("{\"campaigns\":[]}".to_string()));
    assert_eq!(
        cached_catalog_text(&[0xff, 0xfe]),
        Err("Cached cloud catalog is not UTF-8 JSON.".to_string())
    );
}

#[test]
fn downloads_stop_at_the_size_limit_and_on_any_mismatch() {
    assert_eq!(check_download_size(2_147_483_648), Ok(()));
    assert_eq!(
        check_download_size(2_147_483_649),
        Err("Package is larger than the allowed download size.".to_string())
    );
    assert_eq!(check_content_length(None, 5), Ok(()));
    assert_eq!(check_content_length(Some(5), 5), Ok(()));
    assert!(matches!(check_content_length(Some(6), 5), Err(CloudDownloadFailure::Permanent(_))));
    assert_eq!(add_download_chunk(10, 5), Ok(15));
    assert!(matches!(add_download_chunk(2_147_483_648, 1), Err(CloudDownloadFailure::Permanent(_))));
    assert!(add_download_chunk(u64::MAX, 1).is_err());
    let sha = "ab".repeat(32);
    assert_eq!(finish_download(5, 5, &sha, &sha, None), Ok(()));
    assert_eq!(finish_download(5, 5, &sha, &sha, Some(PathKind::File)), Ok(()));
    assert_eq!(
        finish_download(4, 5, &sha, &sha, None),
        Err(CloudDownloadFailure::Permanent(
            "The package size does not match the catalog entry. No files were changed.".into()
        ))
    );
    assert_eq!(
        finish_download(5, 5, "00", &sha, None),
        Err(CloudDownloadFailure::Permanent(
            "The downloaded archive does not match the catalog SHA-256. Installation stopped.".into()
        ))
    );
    assert_eq!(
        finish_download(5, 5, &sha, &sha, Some(PathKind::Directory)),
        Err(CloudDownloadFailure::Permanent("CCM archive cache destination is not a regular file.".into()))
    );
}

#[test]
fn only_the_first_retryable_failure_is_retried() {
    assert_eq!(after_attempt(1, Ok(())), AttemptNext::Done);
    assert_eq!(
        after_attempt(1, Err(CloudDownloadFailure::Retryable("reset".into()))),
        AttemptNext::Retry("download retry scheduled: reset".into())
    );
    assert_eq!(after_attempt(2, Err(CloudDownloadFailure::Retryable("reset".into()))), AttemptNext::Fail("reset".into()));
    assert_eq!(after_attempt(1, Err(CloudDownloadFailure::Permanent("HTTP 404".into()))), AttemptNext::Fail("HTTP 404".into()));
    assert_eq!(attempt_status(1).1, "Downloading package from cloud…");
    assert_eq!(attempt_status(2).1, "Connection was interrupted; retrying download (2/2)…");
    assert_eq!(CloudDownloadFailure::Retryable("x".into()).into_message(), "x");
}

fn entry(name: &str, modified: Option<(u64, u32)>, size: u64) -> CacheEntry {
    CacheEntry { name: name.into(), modified, size, path: format!("/c/{name}") }
}

#[test]
fn pruning_removes_the_oldest_archives_first() {
    let a = format!("{}.zip", "a".repeat(64));
    let b = format!("{}.zip", "b".repeat(64));
    let c = format!("{}.zip", "c".repeat(64));
    assert!(is_cache_archive_name_exec(&a));
    assert!(!is_cache_archive_name_exec("notes.txt"));
    assert!(!is_cache_archive_name_exec(&format!("{}.zip", "g".repeat(64))));
    let candidates = prune_candidates(vec![
        entry(&b, Some((200, 0)), 3),
        entry("notes.txt", Some((1, 0)), 100),
        entry(&a, Some((100, 5)), 2),
        entry(&c, None, 1),
    ]);
    assert_eq!(candidates.total, 6);
    let names: Vec<&str> = candidates.entries.iter().map(|e| e.name.as_str()).collect();
    assert_eq!(names, vec![c.as_str(), a.as_str(), b.as_str()]);
    assert_eq!(prune_step(CLOUD_ARCHIVE_CACHE_LIMIT, "/c/x", "/c/y"), PruneStep::Stop);
    assert_eq!(prune_step(CLOUD_ARCHIVE_CACHE_LIMIT + 1, "/c/x", "/c/y"), PruneStep::Remove);
    assert_eq!(prune_step(CLOUD_ARCHIVE_CACHE_LIMIT + 1, "/c/y", "/c/y"), PruneStep::Keep);
    assert_eq!(after_removal(10, 4), 6);
    assert_eq!(after_removal(3, 4), 0);
}

#[test]
fn diagnostic_entries_stay_on_one_line_without_home_paths() {
    assert_eq!(
        redact_diagnostic_value("failed at /home/ana/x\r\nnext", &["/home/ana".to_string(), String::new()]),
        "failed at ~/x  next"
    );
    assert_eq!(redact_diagnostic_value("/h/a /h/b", &["/h".to_string()]), "~/a ~/b");
    assert_eq!(diagnostic_line(1700000000, "a\nb"), "1700000000 a b");
    assert!(log_needs_rotation(1_000_000));
    assert!(!log_needs_rotation(999_999));
    assert_eq!(
        log_rotation("/l"),
        vec![
            ("/l/ccm-reborn.log.3".to_string(), "/l/ccm-reborn.log.4".to_string()),
            ("/l/ccm-reborn.log.2".to_string(), "/l/ccm-reborn.log.3".to_string()),
            ("/l/ccm-reborn.log.1".to_string(), "/l/ccm-reborn.log.2".to_string()),
            ("/l/ccm-reborn.log".to_string(), "/l/ccm-reborn.log.1".to_string()),
        ]
    );
}
