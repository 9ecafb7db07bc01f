//! Verified core of a StarCraft II community-campaign manager.

pub mod text;
pub mod paths;
pub mod state;
pub mod order;
pub mod profile_core;
pub mod metadata;
pub mod campaign_profile;
pub mod cli;
pub mod catalog;
pub mod resume;
pub mod local_mods;
pub mod inspection;
pub mod install_plan;
pub mod profile_switch;
pub mod journal;
pub mod install;
pub mod restore;
pub mod baseline;
pub mod profile_apply;
pub mod cloud_cache;
pub mod migration;
pub mod progress;
pub mod discovery;
pub mod state_store;
pub mod fixture;
pub mod profile_plan;
pub mod dry_run;
pub mod package;
