use ccm_reborn::catalog::{
    classify_catalog_source, local_package_path, normalize_sha256, resolve_catalog, validate_catalog_campaign,
    validate_declared_package_size, CampaignRequirements, CatalogCampaign, CatalogDocument, CatalogPackage, CatalogSource,
};

const HASH: &str = "ABCDEF0123456789abcdef0123456789ABCDEF0123456789abcdef0123456789";

fn campaign(id: &str, url: Option<&str>, path: Option<&str>) -> CatalogCampaign {
    CatalogCampaign {
        id: id.into(),
        title: "Title".into(),
        author: "Author".into(),
        version: "1.0".into(),
        description: "Description".into(),
        tags: vec!["tag".into()],
        requirements: CampaignRequirements { campaign: "HotS".into() },
        package: CatalogPackage {
            url: url.map(String::from),
            path: path.map(String::from),
            sha256: format!("  {HASH} "),
            size: 10,
        },
    }
}

#[test]
fn sha256_is_trimmed_lowercased_and_checked() {
    let normalized = normalize_sha256(&format!(" {HASH}\n")).unwrap();
    assert_eq!(normalized, HASH.to_ascii_lowercase());
    assert_eq!(normalize_sha256(&normalized).unwrap(), normalized);
    assert_eq!(
        normalize_sha256("abc").unwrap_err(),
        "Catalog entry has no valid SHA-256 for this package."
    );
    assert!(normalize_sha256(&"g".repeat(64)).is_err());
}

#[test]
fn declared_sizes_must_match() {
    assert!(validate_declared_package_size(None, 5).is_ok());
    assert!(validate_declared_package_size(Some(5), 5).is_ok());
    assert_eq!(
        validate_declared_package_size(Some(16), 15).unwrap_err(),
        "The package size does not match the catalog entry. No files were changed."
    );
}

#[test]
fn catalog_entries_need_every_field() {
    assert!(validate_catalog_campaign(&campaign("good-id", None, None)).is_ok());
    let mut missing = campaign("good-id", None, None);
    missing.description = "  ".into();
    assert_eq!(
        validate_catalog_campaign(&missing).unwrap_err(),
        "Campaign good-id is missing required catalog fields."
    );
    let mut empty = campaign("good-id", None, None);
    empty.package.size = 0;
    assert_eq!(validate_catalog_campaign(&empty).unwrap_err(), "Campaign good-id has no package size.");
    assert!(validate_catalog_campaign(&campaign("bad id", None, None)).is_err());
}

#[test]
fn catalog_sources_are_https_or_a_local_catalog_json() {
    match classify_catalog_source("  https://example.com/catalog.json ").unwrap() {
        CatalogSource::Remote(url) => assert_eq!(url, "https://example.com/catalog.json"),
        CatalogSource::Local(_) => panic!("remote source read as local"),
    }
    match classify_catalog_source("/tmp/dev/catalog.json").unwrap() {
        CatalogSource::Local(path) => assert_eq!(path, "/tmp/dev/catalog.json"),
        CatalogSource::Remote(_) => panic!("local source read as remote"),
    }
    assert_eq!(
        classify_catalog_source("   ").unwrap_err(),
        "Enter a catalog.json path or an HTTPS catalog URL."
    );
    assert_eq!(
        classify_catalog_source("/tmp/dev/other.json").unwrap_err(),
        "Local development catalogs must be named catalog.json."
    );
    assert_eq!(local_package_path(Some("packages/a.zip")).unwrap(), "packages/a.zip");
    assert_eq!(local_package_path(None).unwrap_err(), "Local campaigns need package.path.");
    assert!(local_package_path(Some("../a.zip")).is_err());
}

#[test]
fn remote_catalogs_resolve_https_packages_and_refuse_duplicates() {
    let document = CatalogDocument {
        format: 1,
        name: "Community".into(),
        updated_at: "2024-01-01".into(),
        campaigns: vec![campaign("one", Some("https://example.com/one.zip"), None)],
    };
    let loaded = resolve_catalog(document, None, "remote").unwrap();
    assert_eq!(loaded.campaigns.len(), 1);
    assert_eq!(loaded.campaigns[0].package.source, "https://example.com/one.zip");
    assert_eq!(loaded.campaigns[0].package.sha256, HASH.to_ascii_lowercase());
    assert_eq!(loaded.source_kind, "remote");

    let duplicate = CatalogDocument {
        format: 1,
        name: "Community".into(),
        updated_at: String::new(),
        campaigns: vec![
            campaign("one", Some("https://example.com/one.zip"), None),
            campaign("one", Some("https://example.com/two.zip"), None),
        ],
    };
    assert_eq!(
        resolve_catalog(duplicate, None, "remote").err().unwrap(),
        "Catalog contains campaign ID one more than once."
    );
    let insecure = CatalogDocument {
        format: 1,
        name: "Community".into(),
        updated_at: String::new(),
        campaigns: vec![campaign("one", Some("http://example.com/one.zip"), None)],
    };
    assert_eq!(
        resolve_catalog(insecure, None, "remote").err().unwrap(),
        "Remote campaign one needs an HTTPS package.url."
    );
    let unnamed = CatalogDocument { format: 1, name: " ".into(), updated_at: String::new(), campaigns: vec![] };
    assert_eq!(resolve_catalog(unnamed, None, "remote").err().unwrap(), "Catalog must have a name.");
    let future = CatalogDocument { format: 2, name: "x".into(), updated_at: String::new(), campaigns: vec![] };
    assert_eq!(resolve_catalog(future, None, "remote").err().unwrap(), "This catalog uses an unsupported format.");
}

#[test]
fn local_catalogs_use_the_resolved_package_paths() {
    let document = CatalogDocument {
        format: 1,
        name: "Dev".into(),
        updated_at: String::new(),
        campaigns: vec![campaign("one", None, Some("one.zip"))],
    };
    let loaded = resolve_catalog(document, Some(vec![Ok("/dev/one.zip".into())]), "local").unwrap();
    assert_eq!(loaded.campaigns[0].package.source, "/dev/one.zip");
    let failing = CatalogDocument {
        format: 1,
        name: "Dev".into(),
        updated_at: String::new(),
        campaigns: vec![campaign("one", None, Some("missing.zip"))],
    };
    assert_eq!(
        resolve_catalog(failing, Some(vec![Err("Local package missing.zip was not found.".into())]), "local")
            .err()
            .unwrap(),
        "Local package missing.zip was not found."
    );
}
