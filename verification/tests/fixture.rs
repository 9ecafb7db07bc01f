use ccm_reborn::fixture::{check_fixture_root, fixture_file_kind, fixture_summary, FoundFile};

fn found(path: &str, size: u64) -> FoundFile {
    FoundFile { path: path.into(), size, sha256: format!("sha-of-{path}") }
}

#[test]
fn summary_smoke_uses_only_explicit_fixture_root() {
    let summary = fixture_summary(
        "/tmp/fixture",
        vec![
            found("/tmp/fixture/Saves/Campaign/Quick Save.SC2Save", 4),
            found("/tmp/fixture/CampaignProgress.xml", 20),
            found("/tmp/fixture/Banks/ZCampaign.SC2Bank", 4),
        ],
    )
    .unwrap();
    assert_eq!(summary.schema_version, 1);
    assert_eq!(summary.file_count, 3);
    assert_eq!(summary.bytes, 28);
    assert!(summary
        .files
        .iter()
        .any(|file| file.kind == "campaign-bank" && file.relative_path == "Banks/ZCampaign.SC2Bank"));
    assert!(summary
        .files
        .iter()
        .any(|file| file.kind == "campaign-save" && file.relative_path == "Saves/Campaign/Quick Save.SC2Save"));
    let order: Vec<&str> = summary.files.iter().map(|f| f.relative_path.as_str()).collect();
    assert_eq!(order, vec!["Banks/ZCampaign.SC2Bank", "CampaignProgress.xml", "Saves/Campaign/Quick Save.SC2Save"]);
}

#[test]
fn paths_sort_by_component_and_kinds_ignore_case() {
    let summary = fixture_summary("/r", vec![found("/r/a-b", 1), found("/r/a/b", 1)]).unwrap();
    let order: Vec<&str> = summary.files.iter().map(|f| f.relative_path.as_str()).collect();
    assert_eq!(order, vec!["a/b", "a-b"]);
    assert_eq!(fixture_file_kind("CAMPAIGNPROGRESS.XML"), "campaign-progress");
    assert_eq!(fixture_file_kind("Banks/WCampaign.SC2Bank"), "campaign-bank");
    assert_eq!(fixture_file_kind("Banks/Other.SC2Bank"), "other");
    assert_eq!(fixture_file_kind("saves/x.sc2save"), "campaign-save");
    assert_eq!(fixture_summary("/r", vec![found("/elsewhere/x", 1)]), Err("Fixture file escaped its root.".to_string()));
    assert_eq!(check_fixture_root("/r", true), Ok(()));
    assert_eq!(check_fixture_root("/r", false), Err("Fixture root is not a directory: /r".to_string()));
}
