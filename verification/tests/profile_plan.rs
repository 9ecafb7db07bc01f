use ccm_reborn::profile_plan::profile_plan_start;
use ccm_reborn::campaign_profile::campaign_profile_spec;
use ccm_reborn::profile_switch::save_matching;
use ccm_reborn::profile_plan::{
    plan_profile_files, plan_profile_transition, plan_slot_profile, FoundBank, FoundProfileFile, FoundProgress, FoundSave, ProfileFacts,
    SelectedProfile,
};

fn file(path: &str, size: u64) -> FoundProfileFile {
    FoundProfileFile { path: path.into(), size, sha256: format!("sha-{size}") }
}

fn facts() -> ProfileFacts {
    ProfileFacts {
        profile: "/p".into(),
        source_store: "/s/vanilla-heart-of-the-swarm".into(),
        target_store: "/s/mod".into(),
        banks: vec![FoundBank {
            file: file("/p/Banks/ZCampaign.SC2Bank", 4),
            text: "<Section name=\"a\">\n<Key name=\"k\"/>\n<Key name=\"j\"/>".into(),
        }],
        progress: Some(FoundProgress {
            file: file("/p/CampaignProgress.xml", 7),
            text: "<Progress>\n  <Campaign id=\"HeartOfTheSwarm\" tutorialfinished=\"1\" campaignfinished=\"0\"/>\n</Progress>"
                .into(),
        }),
        saves: vec![
            FoundSave { file: file("/p/Saves/Multiplayer/SwarmCampaignSave.SC2Save", 11), details: None },
            FoundSave { file: file("/p/Saves/Campaign/x.SC2Save", 12), details: Some(Err("bad".into())) },
            FoundSave { file: file("/p/Saves/readme.txt", 13), details: None },
        ],
        target_banks: vec![],
        target_progress: None,
        target_saves: vec![file("/s/mod/Saves/Campaign/old.SC2Save", 21)],
    }
}

#[test]
fn profile_files_are_listed_in_the_order_they_are_found() {
    let spec = campaign_profile_spec("Maps/Campaign/swarm").unwrap();
    let found = plan_profile_files(&facts(), &spec, &[]).unwrap();
    let listed: Vec<(&str, &str, &str)> = found
        .files
        .iter()
        .map(|f| (f.relative_path.as_str(), f.action.as_str(), f.destination.as_str()))
        .collect();
    assert_eq!(
        listed,
        vec![
            (
                "Banks/ZCampaign.SC2Bank",
                "snapshot-current-and-reset-for-mod",
                "/s/vanilla-heart-of-the-swarm/Banks/ZCampaign.SC2Bank"
            ),
            (
                "CampaignProgress.xml",
                "snapshot-and-reset-target-node",
                "/s/vanilla-heart-of-the-swarm/CampaignProgress.xml"
            ),
            (
                "Saves/Multiplayer/SwarmCampaignSave.SC2Save",
                "snapshot-and-move-to-mod-profile",
                "/s/vanilla-heart-of-the-swarm/Saves/Multiplayer/SwarmCampaignSave.SC2Save"
            ),
            ("Saves/Campaign/old.SC2Save", "restore-target-mod-profile-save", "/p/Saves/Campaign/old.SC2Save"),
        ]
    );
    assert_eq!(found.files[0].detail.as_deref(), Some("swarm campaign bank"));
    assert_eq!(
        found.files[1].detail.as_deref(),
        Some("current node: <Campaign id=\"HeartOfTheSwarm\" tutorialfinished=\"1\" campaignfinished=\"0\"/>")
    );
    assert_eq!(found.bank_plans.len(), 1);
    assert_eq!((found.bank_plans[0].sections, found.bank_plans[0].keys), (1, 2));
    let keys: Vec<(&str, &str, &str)> = found
        .progress_keys
        .iter()
        .map(|k| (k.key.as_str(), k.current_value.as_str(), k.planned_value.as_str()))
        .collect();
    assert_eq!(keys, vec![("tutorialfinished", "1", "0"), ("campaignfinished", "0", "0")]);
    assert_eq!(
        found.warnings,
        vec!["Could not inspect Saves/Campaign/x.SC2Save: bad; it will be left untouched.".to_string()]
    );
}

#[test]
fn profile_plan_sorts_files_and_adds_the_closing_warnings() {
    let spec = campaign_profile_spec("Maps/Campaign/swarm").unwrap();
    let plan = plan_slot_profile(&facts(), &spec, &[], "~/p".into(), "a → b".into(), 1, None).unwrap();
    let order: Vec<&str> = plan.files.iter().map(|f| f.relative_path.as_str()).collect();
    assert_eq!(
        order,
        vec![
            "Banks/ZCampaign.SC2Bank",
            "CampaignProgress.xml",
            "Saves/Campaign/old.SC2Save",
            "Saves/Multiplayer/SwarmCampaignSave.SC2Save",
        ]
    );
    assert_eq!(plan.profile_path.as_deref(), Some("~/p"));
    assert_eq!(plan.profile_store_path.as_deref(), Some("a → b"));
    assert_eq!(
        plan.warnings,
        vec![
            "2 StarCraft II profiles found; selected ~/p and will leave the others untouched.".to_string(),
            "Could not inspect Saves/Campaign/x.SC2Save: bad; it will be left untouched.".to_string(),
            "No managed dependency was found for the current campaign; individual campaign saves stay untouched until their mod identity is known.".to_string(),
            "Saved swarm profile data will be restored after the current campaign profile is snapshotted.".to_string(),
        ]
    );
}

#[test]
fn a_missing_progress_file_is_a_warning() {
    let spec = campaign_profile_spec("Maps/Campaign/swarm").unwrap();
    let mut facts = facts();
    facts.progress = None;
    let found = plan_profile_files(&facts, &spec, &[]).unwrap();
    assert!(found.progress_keys.is_empty());
    assert_eq!(
        found.warnings[0],
        "CampaignProgress.xml was not found; only discovered bank/save files can be profiled."
    );
}

#[test]
fn the_stored_progress_node_decides_the_flags() {
    let spec = campaign_profile_spec("Maps/Campaign/swarm").unwrap();
    let mut facts = facts();
    facts.target_progress = Some(FoundProgress {
        file: file("/s/mod/CampaignProgress.xml", 5),
        text: "<Campaign id=\"HeartOfTheSwarm\" tutorialfinished=\"0\" campaignfinished=\"1\"/>".into(),
    });
    let found = plan_profile_files(&facts, &spec, &[]).unwrap();
    let keys: Vec<(&str, &str)> =
        found.progress_keys.iter().map(|k| (k.current_value.as_str(), k.planned_value.as_str())).collect();
    assert_eq!(keys, vec![("1", "0"), ("0", "1")]);
    assert!(found.files.iter().any(|f| f.action == "restore-target-campaign-progress-node"));
}

#[test]
fn a_file_outside_its_directory_is_refused() {
    let spec = campaign_profile_spec("Maps/Campaign/swarm").unwrap();
    let mut facts = facts();
    facts.target_saves = vec![file("/elsewhere/Saves/x.SC2Save", 1)];
    assert_eq!(plan_profile_files(&facts, &spec, &[]), Err("Profile path escaped its root.".to_string()));
}

#[test]
fn a_switch_to_the_vanilla_store_claims_unmanaged_saves() {
    let vanilla = save_matching("", vec![], "vanilla-heart-of-the-swarm", &["dep.sc2mod".to_string()]);
    assert!(vanilla.source_allows_unmanaged && vanilla.target_allows_unmanaged);
    assert_eq!(vanilla.target_names, vec!["dep.sc2mod".to_string()]);
    let same = save_matching("mod", vec!["a.sc2mod".into()], "mod", &["b.sc2mod".to_string()]);
    assert_eq!(same.target_names, vec!["b.sc2mod".to_string(), "a.sc2mod".to_string()]);
    assert!(!same.source_allows_unmanaged && !same.target_allows_unmanaged);
}

fn markers(versions_dir: bool) -> ccm_reborn::discovery::GameRootMarkers {
    ccm_reborn::discovery::GameRootMarkers {
        maps_campaign_dir: true,
        maps_dir: true,
        mods_dir: true,
        sc2data_dir: false,
        app_bundle_dir: false,
        support_dir: false,
        support64_dir: false,
        versions_dir,
        sc2_exe_file: false,
        switcher_exe_file: false,
        support64_sc2_exe_file: false,
        support64_switcher_exe_file: false,
    }
}

#[test]
fn profile_plan_leaves_an_unknown_slot_or_a_non_starcraft_root_untouched() {
    let unknown = profile_plan_start("Maps/Campaign/custom", &markers(true)).unwrap_err();
    assert!(unknown.profile_path.is_none() && unknown.files.is_empty() && unknown.bank_plans.is_empty());
    assert_eq!(unknown.warnings, vec!["Campaign profile mapping is unknown; save and progress files will be left untouched."]);
    let not_starcraft = profile_plan_start("Maps/Campaign/swarm", &markers(false)).unwrap_err();
    assert_eq!(
        not_starcraft.warnings,
        vec!["StarCraft II executable layout was not detected; account saves and progress were not scanned."]
    );
    let spec = profile_plan_start("Maps/Campaign/swarm", &markers(true)).unwrap();
    assert_eq!(spec.save_marker, "swarm");
}

#[test]
fn plan_profile_transition_starts_from_the_target_and_the_game_folder() {
    let selected = || SelectedProfile {
        facts: facts(),
        names: vec![],
        profile_label: "~/p".into(),
        store_label: "a → b".into(),
        other_profiles: 1,
        current_title: None,
    };
    let unknown = plan_profile_transition("Maps/Campaign/custom", &markers(true), Some(selected())).unwrap();
    assert!(unknown.profile_path.is_none() && unknown.files.is_empty() && unknown.bank_plans.is_empty());
    assert_eq!(unknown.warnings, vec!["Campaign profile mapping is unknown; save and progress files will be left untouched."]);
    let not_starcraft = plan_profile_transition("Maps/Campaign/swarm", &markers(false), Some(selected())).unwrap();
    assert_eq!(
        not_starcraft.warnings,
        vec!["StarCraft II executable layout was not detected; account saves and progress were not scanned."]
    );
    let no_profile = plan_profile_transition("Maps/Campaign/swarm", &markers(true), None).unwrap();
    assert_eq!(
        no_profile.warnings,
        vec!["No StarCraft II account profile was found; campaign saves and progress will be left untouched."]
    );
    let spec = campaign_profile_spec("Maps/Campaign/swarm").unwrap();
    let direct = plan_slot_profile(&facts(), &spec, &[], "~/p".into(), "a → b".into(), 1, None).unwrap();
    let planned = plan_profile_transition("Maps/Campaign/swarm", &markers(true), Some(selected())).unwrap();
    assert_eq!(planned, direct);
    assert_eq!(planned.profile_path.as_deref(), Some("~/p"));
}
