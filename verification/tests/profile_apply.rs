use ccm_reborn::campaign_profile::campaign_profile_spec;
use ccm_reborn::journal::{PathKind, ProfileBackupEntry, ProfileTransaction};
use ccm_reborn::profile_apply::{
    capture_transaction, profile_failure_message, profile_file_removal, profile_store_chain, profile_switch_applies,
    profile_write_check, rollback_plan, switch_plan, touched_profile_paths, validate_profile_store_chain,
    validate_profile_switch_roots, PathCheck, ProfileRootsCheck, SwitchSaves, SwitchStep,
};
use ccm_reborn::restore::FileStep;

fn absent() -> PathCheck {
    PathCheck { present: false, kind: Err("not found".into()) }
}

fn present(kind: PathKind) -> PathCheck {
    PathCheck { present: true, kind: Ok(kind) }
}

fn roots() -> ProfileRootsCheck {
    ProfileRootsCheck {
        profile: Ok(PathKind::Directory),
        profile_banks: present(PathKind::Directory),
        profile_saves: absent(),
        store: present(PathKind::Directory),
        store_banks: absent(),
        store_saves: present(PathKind::Directory),
    }
}

#[test]
fn profile_roots_must_be_real_directories() {
    assert_eq!(validate_profile_switch_roots(&roots()), Ok(()));
    let mut linked = roots();
    linked.profile = Ok(PathKind::Symlink);
    assert_eq!(
        validate_profile_switch_roots(&linked),
        Err("Selected StarCraft II profile must be a regular directory.".to_string())
    );
    let mut saves = roots();
    saves.profile_saves = present(PathKind::Symlink);
    assert_eq!(
        validate_profile_switch_roots(&saves),
        Err("Selected profile Saves directory must not be a symlink.".to_string())
    );
    let mut store = roots();
    store.store = present(PathKind::File);
    assert_eq!(
        validate_profile_switch_roots(&store),
        Err("CCM profile-store directory must be a regular directory, not a symlink.".to_string())
    );
    let mut store_banks = roots();
    store_banks.store_banks = present(PathKind::Symlink);
    assert_eq!(
        validate_profile_switch_roots(&store_banks),
        Err("CCM profile-store Banks directory must not be a symlink.".to_string())
    );
    let mut no_store = roots();
    no_store.store = absent();
    no_store.store_banks = present(PathKind::Symlink);
    assert_eq!(validate_profile_switch_roots(&no_store), Ok(()));
}

#[test]
fn the_store_chain_runs_from_home_to_the_account_store() {
    let chain = profile_store_chain("/home/p", &["accounts".to_string(), "abc".to_string()]);
    assert_eq!(
        chain,
        vec![
            "/home/p/.ccm-reborn".to_string(),
            "/home/p/.ccm-reborn/profiles".to_string(),
            "/home/p/.ccm-reborn/profiles/accounts".to_string(),
            "/home/p/.ccm-reborn/profiles/accounts/abc".to_string(),
        ]
    );
    let checks = vec![present(PathKind::Directory), present(PathKind::Directory), absent(), absent()];
    assert_eq!(validate_profile_store_chain(&chain, &checks), Ok(()));
    let checks = vec![present(PathKind::Directory), present(PathKind::Symlink), absent(), absent()];
    assert_eq!(
        validate_profile_store_chain(&chain, &checks),
        Err("CCM profile-store component /home/p/.ccm-reborn/profiles must be a regular directory.".to_string())
    );
}

#[test]
fn single_profile_files_are_only_replaced_or_removed_when_regular() {
    assert_eq!(profile_file_removal("/p/a", &absent()), Ok(false));
    assert_eq!(profile_file_removal("/p/a", &present(PathKind::File)), Ok(true));
    assert_eq!(
        profile_file_removal("/p/a", &present(PathKind::Symlink)),
        Err("Refusing to remove symlinked profile file /p/a.".to_string())
    );
    assert_eq!(
        profile_file_removal("/p/a", &present(PathKind::Directory)),
        Err("Profile path /p/a is not a regular file.".to_string())
    );
    assert_eq!(profile_write_check("/p/a", &absent()), Ok(()));
    assert_eq!(profile_write_check("/p/a", &present(PathKind::File)), Ok(()));
    assert_eq!(
        profile_write_check("/p/a", &present(PathKind::Symlink)),
        Err("Refusing to replace non-regular profile file /p/a.".to_string())
    );
    assert_eq!(profile_failure_message("copy failed", &None), "copy failed");
    assert_eq!(
        profile_failure_message("copy failed", &Some("disk full".into())),
        "copy failed; profile rollback also failed: disk full"
    );
}

#[test]
fn capture_numbers_copies_and_skips_repeated_paths() {
    let paths: Vec<String> = vec!["/p/a".into(), "/p/b".into(), "/p/a".into(), "/p/c".into()];
    let checks = vec![present(PathKind::File), absent(), present(PathKind::Symlink), present(PathKind::File)];
    let t = capture_transaction(&paths, &checks, "/s").unwrap();
    assert_eq!(
        t.entries,
        vec![
            ProfileBackupEntry { path: "/p/a".into(), backup: Some("/s/profile-rollback/00000000".into()) },
            ProfileBackupEntry { path: "/p/b".into(), backup: None },
            ProfileBackupEntry { path: "/p/c".into(), backup: Some("/s/profile-rollback/00000002".into()) },
        ]
    );
    let checks = vec![present(PathKind::File), present(PathKind::Symlink), absent(), absent()];
    assert_eq!(
        capture_transaction(&paths, &checks, "/s"),
        Err("Refusing to modify symlinked profile path /p/b.".to_string())
    );
    let checks = vec![present(PathKind::Directory), absent(), absent(), absent()];
    assert_eq!(capture_transaction(&paths, &checks, "/s"), Err("Profile path /p/a is not a regular file.".to_string()));
}

#[test]
fn rollback_runs_last_entry_first() {
    let t = ProfileTransaction {
        entries: vec![
            ProfileBackupEntry { path: "/p/a".into(), backup: Some("/s/0".into()) },
            ProfileBackupEntry { path: "/p/b".into(), backup: None },
            ProfileBackupEntry { path: "/p/c".into(), backup: None },
        ],
    };
    let plan = rollback_plan(&t, &[true, true, false], &[true, true, false]);
    assert_eq!(
        plan.steps,
        vec![
            FileStep::RemoveIfFile("/p/b".into()),
            FileStep::Copy { from: "/s/0".into(), to: "/p/a".into() },
        ]
    );
    assert_eq!(plan.error, None);
    let plan = rollback_plan(&t, &[true, true, true], &[true, true, false]);
    assert!(plan.steps.is_empty());
    assert_eq!(plan.error, Some("Cannot roll back non-file profile path /p/c.".to_string()));
}

fn saves() -> SwitchSaves {
    SwitchSaves {
        source_saves: vec!["/p/Saves/Campaign/w1.SC2Save".into()],
        target_saves: vec!["/p/Saves/Campaign/z1.SC2Save".into()],
        source_store_saves: vec!["/st/src/Saves/old.SC2Save".into()],
        target_store_saves: vec!["/st/dst/Saves/Campaign/z2.SC2Save".into()],
    }
}

#[test]
fn a_switch_snapshots_the_source_and_restores_the_target() {
    let wol = campaign_profile_spec("Maps/Campaign").unwrap();
    let hots = campaign_profile_spec("Maps/Campaign/swarm").unwrap();
    let plan = switch_plan("/p", "/st/src", "/st/dst", &wol, &hots, &saves(), "mod-a");
    assert_eq!(plan.error, None);
    let steps = plan.steps;
    assert_eq!(steps[0], SwitchStep::RemoveFile("/st/src/Saves/old.SC2Save".into()));
    assert_eq!(
        steps[1],
        SwitchStep::CopyIfFile { from: "/p/CampaignProgress.xml".into(), to: "/st/src/CampaignProgress.xml".into() }
    );
    assert_eq!(
        steps[2],
        SwitchStep::CopyIfFile { from: "/p/Banks/WCampaign.SC2Bank".into(), to: "/st/src/Banks/WCampaign.SC2Bank".into() }
    );
    assert_eq!(
        steps[7],
        SwitchStep::Copy { from: "/p/Saves/Campaign/w1.SC2Save".into(), to: "/st/src/Saves/Campaign/w1.SC2Save".into() }
    );
    assert_eq!(steps[8], SwitchStep::WriteResumeManifest("/st/src/ccm-resume.json".into()));
    assert_eq!(steps[9], SwitchStep::RemoveFile("/p/Saves/Campaign/w1.SC2Save".into()));
    assert_eq!(steps[15], SwitchStep::RemoveFile("/p/Saves/Campaign/z1.SC2Save".into()));
    assert_eq!(steps[16], SwitchStep::RemoveFile("/p/Banks/ZCampaign.SC2Bank".into()));
    assert_eq!(
        steps[21],
        SwitchStep::CopyIfFile { from: "/st/dst/Banks/ZCampaign.SC2Bank".into(), to: "/p/Banks/ZCampaign.SC2Bank".into() }
    );
    assert_eq!(
        steps[26],
        SwitchStep::Copy { from: "/st/dst/Saves/Campaign/z2.SC2Save".into(), to: "/p/Saves/Campaign/z2.SC2Save".into() }
    );
    assert_eq!(
        steps[27],
        SwitchStep::UpdateProgress { live: "/p/CampaignProgress.xml".into(), stored: "/st/dst/CampaignProgress.xml".into() }
    );
    assert_eq!(steps.len(), 28);

    // The unmodified campaign's snapshot records no campaign.
    let vanilla = switch_plan("/p", "/st/src", "/st/dst", &wol, &hots, &saves(), "");
    assert_eq!(vanilla.steps.len(), 27);
    assert!(!vanilla.steps.iter().any(|s| matches!(s, SwitchStep::WriteResumeManifest(_))));
}

#[test]
fn a_save_outside_its_store_stops_the_switch() {
    let wol = campaign_profile_spec("Maps/Campaign").unwrap();
    let mut bad = saves();
    bad.target_store_saves = vec!["/elsewhere/z2.SC2Save".into()];
    let plan = switch_plan("/p", "/st/src", "/st/dst", &wol, &wol, &bad, "mod-a");
    assert_eq!(plan.error, Some("Target profile save escaped its store.".to_string()));
    assert_eq!(plan.steps.len(), 26);
    let mut bad = saves();
    bad.source_saves = vec!["/elsewhere/w1.SC2Save".into()];
    let plan = switch_plan("/p", "/st/src", "/st/dst", &wol, &wol, &bad, "mod-a");
    assert_eq!(plan.error, Some("Profile file escaped its root.".to_string()));
    assert_eq!(plan.steps.len(), 7);
}

#[test]
fn the_rollback_copy_covers_every_file_a_switch_touches() {
    let wol = campaign_profile_spec("Maps/Campaign").unwrap();
    let hots = campaign_profile_spec("Maps/Campaign/swarm").unwrap();
    let touched = touched_profile_paths("/p", "/st/src", "/st/dst", &wol, &hots, &saves());
    assert_eq!(touched[0], "/p/CampaignProgress.xml");
    assert_eq!(touched[1], "/st/src/CampaignProgress.xml");
    assert_eq!(touched[2], "/st/src/ccm-resume.json");
    assert_eq!(touched[3], "/p/Banks/WCampaign.SC2Bank");
    assert_eq!(touched[8], "/p/Banks/ZCampaign.SC2Bank");
    assert_eq!(touched[13], "/st/src/Banks/WCampaign.SC2Bank");
    assert_eq!(touched[18], "/st/dst/Banks/ZCampaign.SC2Bank");
    assert_eq!(touched[23], "/p/Saves/Campaign/w1.SC2Save");
    assert_eq!(touched[24], "/p/Saves/Campaign/z1.SC2Save");
    assert_eq!(touched[25], "/st/src/Saves/old.SC2Save");
    assert_eq!(touched[26], "/st/src/Saves/Campaign/w1.SC2Save");
    assert_eq!(touched.len(), 27);
    assert!(profile_switch_applies("Maps/Campaign", "Maps/Campaign/swarm", true, true));
    assert!(!profile_switch_applies("Maps/Campaign", "Maps/Other", true, true));
    assert!(!profile_switch_applies("Maps/Campaign", "Maps/Campaign/swarm", false, true));
    assert!(!profile_switch_applies("Maps/Campaign", "Maps/Campaign/swarm", true, false));
}

/// Carries out switch steps on an in-memory set of files (the progress step
/// writes a marker; the manifest step writes the campaign).
fn run_steps(files: &mut std::collections::BTreeMap<String, String>, steps: &[SwitchStep]) {
    for step in steps {
        match step {
            SwitchStep::RemoveFile(p) => {
                files.remove(p);
            }
            SwitchStep::CopyIfFile { from, to } => {
                if let Some(bytes) = files.get(from).cloned() {
                    files.insert(to.clone(), bytes);
                }
            }
            SwitchStep::Copy { from, to } => {
                let bytes = files.get(from).cloned().unwrap_or_default();
                files.insert(to.clone(), bytes);
            }
            SwitchStep::WriteResumeManifest(p) => {
                files.insert(p.clone(), "manifest".into());
            }
            SwitchStep::UpdateProgress { live, .. } => {
                if files.contains_key(live) {
                    files.insert(live.clone(), "progress".into());
                }
            }
        }
    }
}

#[test]
fn profile_transition_round_trips_campaign_bank() {
    let hots = campaign_profile_spec("Maps/Campaign/swarm").unwrap();
    let none = SwitchSaves { source_saves: vec![], target_saves: vec![], source_store_saves: vec![], target_store_saves: vec![] };
    let mut files = std::collections::BTreeMap::new();
    files.insert("/p/Banks/ZCampaign.SC2Bank".to_string(), "yuri-bank".to_string());
    files.insert("/st/abathur/Banks/ZCampaign.SC2Bank".to_string(), "abathur-bank".to_string());
    let there = switch_plan("/p", "/st/yuri", "/st/abathur", &hots, &hots, &none, "yuri");
    assert!(there.error.is_none());
    run_steps(&mut files, &there.steps);
    assert_eq!(files["/p/Banks/ZCampaign.SC2Bank"], "abathur-bank");
    assert_eq!(files["/st/yuri/Banks/ZCampaign.SC2Bank"], "yuri-bank");
    let back = switch_plan("/p", "/st/abathur", "/st/yuri", &hots, &hots, &none, "abathur");
    run_steps(&mut files, &back.steps);
    assert_eq!(files["/p/Banks/ZCampaign.SC2Bank"], "yuri-bank");
    assert_eq!(files["/st/abathur/Banks/ZCampaign.SC2Bank"], "abathur-bank");
}
