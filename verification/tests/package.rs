use ccm_reborn::package::{
    is_metadata_file, layout_member_relative, package_layout, package_member_relative, resolve_package_layout,
};
use ccm_reborn::paths::{dependency_roots, package_destination};

fn names(items: &[&str]) -> Vec<String> {
    items.iter().map(|s| s.to_string()).collect()
}

/// Destinations of the members the layout keeps, in archive order.
fn destinations(members: &[&str], target: &str) -> Vec<String> {
    let all = names(members);
    let (index, _) = package_layout(&all).unwrap();
    let layout = resolve_package_layout(&all[index], target);
    members
        .iter()
        .filter_map(|name| layout_member_relative(&layout, name))
        .map(|relative| package_destination(target, &relative).unwrap())
        .collect()
}

#[test]
fn metadata_file_is_matched_on_its_last_segment_ignoring_ascii_case() {
    assert!(is_metadata_file("metadata.txt"));
    assert!(is_metadata_file("Mod/METADATA.TXT"));
    assert!(!is_metadata_file("Mod/metadata.txt.bak"));
    assert!(!is_metadata_file("metadata.txt/readme"));
}

#[test]
fn package_layout_finds_the_one_metadata_file_and_its_folder() {
    let (index, prefix) = package_layout(&names(&["Test HoTS Mod/zchar01.SC2Map", "Test HoTS Mod/metadata.txt"])).unwrap();
    assert_eq!((index, prefix.as_str()), (1, "Test HoTS Mod/"));
    let (index, prefix) = package_layout(&names(&["metadata.txt", "a.SC2Map"])).unwrap();
    assert_eq!((index, prefix.as_str()), (0, ""));
}

#[test]
fn package_layout_refuses_backslashes_before_counting_metadata() {
    assert_eq!(
        package_layout(&names(&["a/metadata.txt", "b/metadata.txt", "c\\x"])).unwrap_err(),
        "CCM packages must use forward slashes in ZIP paths."
    );
    assert_eq!(
        package_layout(&names(&["a/metadata.txt", "b/Metadata.txt"])).unwrap_err(),
        "A CCM package must contain exactly one metadata.txt file."
    );
    assert_eq!(
        package_layout(&names(&["a/readme.txt"])).unwrap_err(),
        "A CCM package must contain exactly one metadata.txt file."
    );
}

#[test]
fn member_relative_strips_the_content_prefix() {
    assert_eq!(package_member_relative("Mod/", "Mod/zchar01.SC2Map").as_deref(), Some("zchar01.SC2Map"));
    assert_eq!(package_member_relative("Mod/", "Mod/metadata.txt").as_deref(), Some("metadata.txt"));
    assert_eq!(package_member_relative("Mod/", "Mod/"), None);
    assert_eq!(package_member_relative("Mod/", "Extras/file_000.bin"), None);
    assert_eq!(package_member_relative("", "a.SC2Map").as_deref(), Some("a.SC2Map"));
}

#[test]
fn standard_layout_installs_the_metadata_map_and_dependency() {
    let placed = destinations(
        &["Test HoTS Mod/metadata.txt", "Test HoTS Mod/zchar01.SC2Map", "Test HoTS Mod/TestDependency.SC2Mod"],
        "Maps/Campaign/swarm",
    );
    assert_eq!(
        placed,
        vec!["Maps/Campaign/swarm/metadata.txt", "Maps/Campaign/swarm/zchar01.SC2Map", "Mods/TestDependency.SC2Mod"]
    );
}

#[test]
fn special_whole_game_root_layout_installs_the_sibling_mods_dependency() {
    let layout = resolve_package_layout("Maps/Campaign/swarm/metadata.txt", "Maps/Campaign/swarm");
    assert_eq!(layout.content_prefix, "Maps/Campaign/swarm/");
    assert_eq!(layout.install_root.as_deref(), Some(""));
    let placed = destinations(
        &[
            "Maps/Campaign/swarm/metadata.txt",
            "Maps/Campaign/swarm/zchar01.SC2Map",
            "Maps/Campaign/swarm/Evolution/zevolutionzergling.SC2Map",
            "Mods/MyDep.SC2Mod/DocumentInfo",
            "Change Logs.txt",
        ],
        "Maps/Campaign/swarm",
    );
    // metadata.txt + two maps + one dependency file; the loose changelog is skipped.
    assert_eq!(placed.len(), 4);
    assert!(placed.contains(&"Maps/Campaign/swarm/Evolution/zevolutionzergling.SC2Map".to_string()));
    assert!(placed.contains(&"Mods/MyDep.SC2Mod/DocumentInfo".to_string()));
    assert!(!placed.contains(&"Maps/Campaign/swarm/Change Logs.txt".to_string()));
    assert!(dependency_roots(&placed).iter().any(|root| root == "Mods/MyDep.SC2Mod"));
}

#[test]
fn a_nested_content_folder_is_not_a_whole_game_root() {
    let layout = resolve_package_layout("Mod/metadata.txt", "Maps/Campaign/swarm");
    assert_eq!(layout.install_root, None);
    assert_eq!(layout_member_relative(&layout, "Mods/MyDep.SC2Mod/DocumentInfo"), None);
    let upper = resolve_package_layout("Pack/maps/campaign/SWARM/metadata.txt", "Maps/Campaign/swarm");
    assert_eq!(upper.install_root.as_deref(), Some("Pack/"));
    assert_eq!(layout_member_relative(&upper, "Pack/Mods/readme.txt"), None);
}
