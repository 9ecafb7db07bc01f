use ccm_reborn::campaign_profile::{
    bank_shape, campaign_profile_spec, campaign_progress_key_changes, campaign_progress_key_changes_between,
    campaign_slot_bank_paths, extract_archive_paths, find_current_progress_line, find_stored_progress_line,
    is_user_loadable_campaign_save, merge_progress_node, progress_line_is_readable, progress_node_matches,
    relative_profile_path, reset_progress_node, save_details_from_bytes, save_details_match_campaign,
    save_details_match_dependencies, save_details_summary, save_filename_matches, SaveDetails,
};

#[test]
fn extracts_campaign_paths_from_mpq_save_details() {
    let details = b"Campaign/Swarm/ZChar02.SC2Map\t&Mods/VioletsHoTSReworkMod.SC2Mod\0Campaigns/Swarm.SC2Campaign";
    assert_eq!(
        extract_archive_paths(details, "Campaign/", ".SC2Map"),
        vec!["Campaign/Swarm/ZChar02.SC2Map"]
    );
    assert_eq!(
        extract_archive_paths(details, "Mods/", ".SC2Mod"),
        vec!["Mods/VioletsHoTSReworkMod.SC2Mod"]
    );
    assert!(save_details_match_campaign(
        &SaveDetails {
            maps: vec!["Campaign/Swarm/ZChar02.SC2Map".into()],
            mods: vec![],
            campaigns: vec![],
        },
        &campaign_profile_spec("Maps/Campaign/swarm").unwrap()
    ));
}

#[test]
fn save_filter_is_scoped_to_the_target_campaign_and_mod_identity() {
    let spec = campaign_profile_spec("Maps/Campaign/swarm").unwrap();
    assert!(save_filename_matches("SwarmCampaignSave.SC2Save", &spec));
    let profile = "/profile";
    assert!(!is_user_loadable_campaign_save(profile, "/profile/Saves/SwarmCampaignSave.SC2Save"));
    assert!(is_user_loadable_campaign_save(profile, "/profile/Saves/Campaign/Back in the Saddle.SC2Save"));
    assert!(is_user_loadable_campaign_save(profile, "/profile/Saves/Unsaved/Campaign/Back in the Saddle.SC2Save"));
    let lotv = campaign_profile_spec("Maps/Campaign/void").unwrap();
    assert!(!save_filename_matches("VoidPrologueCampaignSave.SC2Save", &lotv));
    assert!(save_details_match_dependencies(
        &SaveDetails {
            maps: vec![],
            mods: vec!["Mods/YuriCampaign.SC2Mod".into()],
            campaigns: vec![],
        },
        &["yuricampaign.sc2mod".into()]
    ));
    assert!(!save_details_match_dependencies(
        &SaveDetails {
            maps: vec![],
            mods: vec!["Mods/Unrelated.SC2Mod".into()],
            campaigns: vec![],
        },
        &["yuricampaign.sc2mod".into()]
    ));
}

#[test]
fn profile_specs_exist_for_the_four_branches_only() {
    let wol = campaign_profile_spec("Maps/Campaign").unwrap();
    assert_eq!(wol.save_marker, "liberty");
    assert_eq!(wol.banks[0], "WCampaign.SC2Bank");
    assert_eq!(wol.progress_ids, vec!["WingsOfLiberty", "Liberty"]);
    let nova = campaign_profile_spec("Maps/Campaign/nova").unwrap();
    assert_eq!(nova.banks[4], "NCampaignStats.SC2Bank");
    assert!(campaign_profile_spec("Maps/Campaign/VoidPrologue").is_none());
    assert!(campaign_profile_spec("").is_none());
}

#[test]
fn slot_bank_paths_live_under_banks() {
    let spec = campaign_profile_spec("Maps/Campaign/swarm").unwrap();
    let paths = campaign_slot_bank_paths("/p", &spec);
    assert_eq!(paths.len(), 5);
    assert_eq!(paths[0], "/p/Banks/ZCampaign.SC2Bank");
    assert_eq!(campaign_slot_bank_paths("/p/", &spec)[1], "/p/Banks/ZArchive.SC2Bank");
}

#[test]
fn relative_profile_paths_follow_components() {
    assert_eq!(relative_profile_path("/profile", "/profile/Saves/a.SC2Save"), Some("Saves/a.SC2Save".into()));
    assert_eq!(relative_profile_path("/profile/", "/profile/Saves/a"), Some("Saves/a".into()));
    assert_eq!(relative_profile_path("/profile", "/profiles/a"), None);
    assert_eq!(relative_profile_path("/profile", "profile/a"), None);
    assert!(!is_user_loadable_campaign_save("/other", "/profile/Saves/Campaign/x.SC2Save"));
}

#[test]
fn save_details_are_read_lossily_and_deduplicated() {
    let mut bytes = b"Campaign/Void/A.SC2Map\xff\xfeCampaign/Void/A.SC2Map Campaign/bad*x.SC2Map".to_vec();
    bytes.extend_from_slice(b"Mods/Core.SC2Mod Mods/Core.SC2Mod Campaigns/Void.SC2Campaign");
    let details = save_details_from_bytes(&bytes);
    assert_eq!(details.maps, vec!["Campaign/Void/A.SC2Map"]);
    assert_eq!(details.mods, vec!["Mods/Core.SC2Mod"]);
    assert_eq!(details.campaigns, vec!["Campaigns/Void.SC2Campaign"]);
    let lotv = campaign_profile_spec("Maps/Campaign/void").unwrap();
    assert!(save_details_match_campaign(&details, &lotv));
    let hots = campaign_profile_spec("Maps/Campaign/swarm").unwrap();
    assert!(!save_details_match_campaign(&details, &hots));
}

#[test]
fn save_summary_lists_map_mods_and_campaign() {
    let details = SaveDetails {
        maps: vec!["Campaign/Swarm/ZChar02.SC2Map".into(), "Campaign/Swarm/Other.SC2Map".into()],
        mods: vec!["Mods/A.SC2Mod".into(), "Mods/B.SC2Mod".into()],
        campaigns: vec!["Campaigns/Swarm.SC2Campaign".into()],
    };
    assert_eq!(
        save_details_summary(&details),
        Some("map: Campaign/Swarm/ZChar02.SC2Map · mods: Mods/A.SC2Mod, Mods/B.SC2Mod · campaign: Campaigns/Swarm.SC2Campaign".into())
    );
    assert_eq!(save_details_summary(&SaveDetails { maps: vec![], mods: vec![], campaigns: vec![] }), None);
}

#[test]
fn progress_node_is_reset_in_place_keeping_line_endings() {
    let spec = campaign_profile_spec("Maps/Campaign/swarm").unwrap();
    let xml = "<root>\r\n<CampaignProgress id=\"Liberty\" tutorialfinished=\"7\" campaignfinished=\"8\" />\r\n<CampaignProgress id=\"Swarm\" tutorialfinished=\"1\" campaignfinished='1' />\r\n</root>";
    let (reset, changed) = reset_progress_node(xml, &spec);
    assert!(changed);
    assert_eq!(
        reset,
        "<root>\r\n<CampaignProgress id=\"Liberty\" tutorialfinished=\"7\" campaignfinished=\"8\" />\r\n<CampaignProgress id=\"Swarm\" tutorialfinished=\"0\" campaignfinished='0' />\r\n</root>"
    );
    let (same, changed) = reset_progress_node("<root/>\n", &spec);
    assert!(!changed);
    assert_eq!(same, "<root/>\n");
    assert!(progress_node_matches("<x id='Swarm' />", &spec));
    assert!(!progress_node_matches("<x id=\"Liberty\" />", &spec));
}

#[test]
fn merge_copies_only_the_stored_slot_node() {
    let spec = campaign_profile_spec("Maps/Campaign/swarm").unwrap();
    let current = "<a id=\"Liberty\" tutorialfinished=\"7\" />\n<a id=\"Swarm\" tutorialfinished=\"0\" />\n";
    let stored = "<a id=\"Swarm\" tutorialfinished=\"1\" />";
    let (merged, changed) = merge_progress_node(current, stored, &spec);
    assert!(changed);
    assert_eq!(merged, "<a id=\"Liberty\" tutorialfinished=\"7\" />\n<a id=\"Swarm\" tutorialfinished=\"1\" />\n");
    let (unchanged, changed) = merge_progress_node(current, "<nothing/>", &spec);
    assert!(!changed);
    assert_eq!(unchanged, current);
}

#[test]
fn key_changes_report_current_and_planned_values() {
    let line = "<CampaignProgress id=\"Swarm\" tutorialfinished=\"1\" campaignfinished=\"1\" />";
    assert!(progress_line_is_readable(line));
    let changes = campaign_progress_key_changes(line);
    assert_eq!(changes.len(), 2);
    assert_eq!(changes[0].key, "tutorialfinished");
    assert_eq!(changes[0].current_value, "1");
    assert_eq!(changes[0].planned_value, "0");
    assert_eq!(changes[1].action, "reset target campaign node for clean mod profile");
    let between = campaign_progress_key_changes_between(line, "<x tutorialfinished='5' />");
    assert_eq!(between.len(), 1);
    assert_eq!(between[0].current_value, "1");
    assert_eq!(between[0].planned_value, "5");
    assert!(!progress_line_is_readable("tutorialfinished=é1é"));
}

#[test]
fn progress_lines_are_chosen_by_id_order() {
    let spec = campaign_profile_spec("Maps/Campaign/swarm").unwrap();
    let xml = "  <n id=\"Swarm\" a=\"1\"/>  \n<n id=\"HeartOfTheSwarm\" a=\"2\"/>\n";
    assert_eq!(find_current_progress_line(xml, &spec), Some("<n id=\"HeartOfTheSwarm\" a=\"2\"/>".into()));
    assert_eq!(find_stored_progress_line(xml, &spec), Some("<n id=\"Swarm\" a=\"1\"/>".into()));
    assert_eq!(find_current_progress_line("<none/>", &spec), None);
}

#[test]
fn bank_shape_counts_section_and_key_lines() {
    let text = "<Bank>\n<Section name=\"a\">\n<Key name=\"k\"/>\n<Key name=\"l\"/>\n</Section>\n<Section name=\"b\"/>";
    assert_eq!(bank_shape(text), (2, 2));
    assert_eq!(bank_shape(""), (0, 0));
}
