use ccm_reborn::discovery::{
    find_game_root, game_root_candidates, has_desktop_starcraft_markers, is_game_root, looks_like_starcraft,
    operation_lock_error, require_desktop_game_root, standard_game_locations, validate_manager_root,
    windows_game_locations, GameRootMarkers,
};
use ccm_reborn::journal::PathKind;

fn no_markers() -> GameRootMarkers {
    GameRootMarkers {
        maps_campaign_dir: false,
        maps_dir: false,
        mods_dir: false,
        sc2data_dir: false,
        app_bundle_dir: false,
        support_dir: false,
        support64_dir: false,
        versions_dir: false,
        sc2_exe_file: false,
        switcher_exe_file: false,
        support64_sc2_exe_file: false,
        support64_switcher_exe_file: false,
    }
}

#[test]
fn windows_support64_layout_is_detected() {
    let game = "/sandbox/StarCraft II".to_string();
    let markers = GameRootMarkers {
        sc2data_dir: true,
        maps_campaign_dir: true,
        maps_dir: true,
        support64_dir: true,
        support64_switcher_exe_file: true,
        ..no_markers()
    };
    let candidates = game_root_candidates(&game);
    let is_root = vec![is_game_root(&markers), false, false, false];
    assert_eq!(find_game_root(&candidates, &is_root, &[None, None, None, None]), Some(game.clone()));
    assert!(has_desktop_starcraft_markers(&markers));
    let locations = windows_game_locations(
        Some("C:/Program Files".into()),
        Some("C:/Program Files".into()),
        Some("C:/Program Files (x86)".into()),
        Some("C:/Users/test/AppData/Local".into()),
        Some("C:".into()),
    );
    assert!(locations.contains(&"C:/Program Files/StarCraft II".to_string()));
    assert!(locations.contains(&"C:/Program Files (x86)/StarCraft II".to_string()));
    assert!(locations.contains(&"C:/Users/test/AppData/Local/Blizzard/StarCraft II".to_string()));
    assert!(locations.contains(&"C:/Games/StarCraft II".to_string()));
    let program_files_location = "C:/Program Files/StarCraft II".to_string();
    assert_eq!(locations.iter().filter(|path| *path == &program_files_location).count(), 1);
}

#[test]
fn the_drive_root_is_explicit_and_locations_stay_unique() {
    let locations = windows_game_locations(None, None, None, None, Some("D:\\".into()));
    assert_eq!(locations, vec!["D:/Games/StarCraft II".to_string()]);
    assert!(windows_game_locations(None, None, None, None, None).is_empty());
    assert_eq!(
        standard_game_locations(Some("/home/ana".into())),
        vec![
            "/Applications/StarCraft II".to_string(),
            "/Applications/StarCraft II.app".to_string(),
            "/home/ana/Applications/StarCraft II".to_string(),
            "/home/ana/Applications/StarCraft II.app".to_string(),
            "/home/ana/Library/Application Support/Blizzard/StarCraft II".to_string(),
        ]
    );
    assert_eq!(standard_game_locations(None).len(), 2);
}

#[test]
fn game_roots_are_found_in_bundles_and_versions() {
    assert_eq!(
        game_root_candidates("/Applications/StarCraft II"),
        vec![
            "/Applications/StarCraft II".to_string(),
            "/Applications/StarCraft II/Contents/Resources".to_string(),
            "/Applications/StarCraft II/StarCraft II.app/Contents/Resources".to_string(),
            "/Applications/StarCraft II/StarCraft II".to_string(),
        ]
    );
    let candidates = game_root_candidates("/g");
    let found = find_game_root(
        &candidates,
        &[false, false, true, false],
        &[None, Some("/g/Contents/Resources/Versions/Base1".into()), None, None],
    );
    assert_eq!(found, Some("/g/Contents/Resources/Versions/Base1".to_string()));
    assert_eq!(find_game_root(&candidates, &[false; 4], &[None, None, None, None]), None);
    assert!(is_game_root(&GameRootMarkers { maps_dir: true, mods_dir: true, ..no_markers() }));
    assert!(!is_game_root(&GameRootMarkers { maps_dir: true, ..no_markers() }));
    assert!(!has_desktop_starcraft_markers(&GameRootMarkers { support64_dir: true, ..no_markers() }));
    assert!(looks_like_starcraft(&GameRootMarkers { versions_dir: true, ..no_markers() }));
    assert!(!looks_like_starcraft(&GameRootMarkers { maps_campaign_dir: true, ..no_markers() }));
}

#[test]
fn desktop_commands_work_only_in_the_exact_game_root() {
    let g = Some("/g".to_string());
    assert_eq!(require_desktop_game_root(&g, &Some(Ok("/g".into())), true), Ok("/g".to_string()));
    assert_eq!(
        require_desktop_game_root(&None, &None, true),
        Err("Choose an existing StarCraft II directory first.".to_string())
    );
    assert_eq!(
        require_desktop_game_root(&g, &None, true),
        Err("The selected directory is not a StarCraft II game root.".to_string())
    );
    assert_eq!(
        require_desktop_game_root(&g, &Some(Ok("/g/StarCraft II".into())), true),
        Err("Choose the exact detected StarCraft II game directory, not a parent folder or .app bundle.".to_string())
    );
    assert_eq!(
        require_desktop_game_root(&g, &Some(Ok("/g".into())), false),
        Err("The selected directory lacks the StarCraft II runtime markers required for a desktop install.".to_string())
    );
    assert_eq!(validate_manager_root(&Ok(PathKind::Directory), false, &Err("x".into())), Ok(()));
    assert_eq!(
        validate_manager_root(&Ok(PathKind::Symlink), false, &Err("x".into())),
        Err("Selected game directory is not a regular directory.".to_string())
    );
    assert_eq!(
        validate_manager_root(&Ok(PathKind::Directory), true, &Ok(PathKind::Symlink)),
        Err("CCM's .ccm-reborn directory must be a regular directory, not a symlink.".to_string())
    );
    assert!(operation_lock_error(true, "io").contains("Another CCM operation"));
    assert_eq!(operation_lock_error(false, "disk failure"), "disk failure");
}
