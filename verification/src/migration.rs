//! Profile snapshots from older versions, which were keyed by campaign only:
//! refusing to use them ambiguously, and moving one into an account's store.

use vstd::prelude::*;
use crate::journal::PathKind;
use crate::paths::{join_path, join_path_exec};
use crate::resume::CampaignProfileResumeManifest;
use crate::state::{campaign_id_error, campaign_id_ok, validate_campaign_id};
use crate::text::{chars_of, concat_chars, owned, string_from_chars};

verus! {

/// The answer to a legacy migration.
#[derive(Debug, Clone, PartialEq, Eq)]
pub struct LegacyProfileMigration {
    pub campaign_id: String,
    pub files_copied: usize,
}

pub open spec fn ambiguous_legacy_error(legacy: Seq<char>) -> Seq<char> {
    "Legacy CCM profile snapshot "@ + legacy
        + " is not tied to an SC2 account. It was left untouched; migrate or remove it explicitly before switching this campaign."@
}

/// What `reject_ambiguous_legacy_profile_store` decides for a campaign whose
/// old snapshot lies at `legacy`: nothing to decide for the unmodified
/// campaign or without an old snapshot; otherwise the account's store must
/// already hold an imported copy (a real directory whose resume manifest
/// reads back for the campaign).
pub open spec fn legacy_outcome(
    campaign_id: Seq<char>,
    legacy: Seq<char>,
    legacy_present: bool,
    imported_is_dir: bool,
    imported_kind: Result<PathKind, String>,
    imported_manifest_ok: bool,
) -> Result<(), Seq<char>> {
    if campaign_id.len() == 0 {
        Ok(())
    } else if !campaign_id_ok(campaign_id) {
        Err(campaign_id_error())
    } else if !legacy_present {
        Ok(())
    } else if imported_is_dir {
        match imported_kind {
            Err(e) => Err(e@),
            Ok(k) => if k != PathKind::Symlink && imported_manifest_ok {
                Ok(())
            } else {
                Err(ambiguous_legacy_error(legacy))
            },
        }
    } else {
        Err(ambiguous_legacy_error(legacy))
    }
}

/// `reject_ambiguous_legacy_profile_store` on what the file system shows.
pub fn reject_ambiguous_legacy_profile_store(
    campaign_id: &str,
    legacy: &str,
    legacy_present: bool,
    imported_is_dir: bool,
    imported_kind: &Result<PathKind, String>,
    imported_manifest_ok: bool,
) -> (r: Result<(), String>)
    ensures
        match r {
            Ok(()) => legacy_outcome(
                campaign_id@,
                legacy@,
                legacy_present,
                imported_is_dir,
                *imported_kind,
                imported_manifest_ok,
            ) is Ok,
            Err(e) => legacy_outcome(
                campaign_id@,
                legacy@,
                legacy_present,
                imported_is_dir,
                *imported_kind,
                imported_manifest_ok,
            ) == Err::<(), Seq<char>>(e@),
        },
{
    if campaign_id.is_empty() {
        return Ok(());
    }
    validate_campaign_id(campaign_id)?;
    if !legacy_present {
        return Ok(());
    }
    if imported_is_dir {
        match imported_kind {
            Err(e) => {
                return Err(e.clone());
            },
            Ok(PathKind::Symlink) => {},
            Ok(_) => {
                if imported_manifest_ok {
                    return Ok(());
                }
            },
        }
    }
    let m = concat_chars(
        &concat_chars(&chars_of("Legacy CCM profile snapshot "), &chars_of(legacy)),
        &chars_of(
            " is not tied to an SC2 account. It was left untouched; migrate or remove it explicitly before switching this campaign.",
        ),
    );
    Err(string_from_chars(&m))
}

pub open spec fn irregular_account_store_error() -> Seq<char> {
    "The selected account's CCM profile store is not a regular directory."@
}

/// The account's store, once created, must be a real directory.
pub fn check_account_store(kind: &Result<PathKind, String>) -> (r: Result<(), String>)
    ensures
        match *kind {
            Err(e) => r == Err::<(), String>(e),
            Ok(k) => if k == PathKind::Directory {
                r is Ok
            } else {
                r matches Err(e) && e@ == irregular_account_store_error()
            },
        },
{
    match kind {
        Err(e) => Err(e.clone()),
        Ok(PathKind::Directory) => Ok(()),
        Ok(_) => Err(owned("The selected account's CCM profile store is not a regular directory.")),
    }
}

pub open spec fn legacy_missing_error(legacy: Seq<char>) -> Seq<char> {
    "Legacy CCM profile snapshot "@ + legacy + " was not found."@
}

pub open spec fn irregular_legacy_error() -> Seq<char> {
    "Legacy CCM profile snapshot must be a regular directory."@
}

pub open spec fn already_imported_error(campaign_id: Seq<char>) -> Seq<char> {
    "The selected account already has a CCM profile for "@ + campaign_id + "; it was not overwritten."@
}

/// The checks of moving a legacy snapshot to an account before anything is
/// copied: a valid campaign ID, a legacy snapshot that is a real directory,
/// and no copy already in the account's store.
pub open spec fn migration_outcome(
    campaign_id: Seq<char>,
    legacy: Seq<char>,
    legacy_kind: Result<PathKind, String>,
    target_present: bool,
) -> Result<(), Seq<char>> {
    if !campaign_id_ok(campaign_id) {
        Err(campaign_id_error())
    } else {
        match legacy_kind {
            Err(_) => Err(legacy_missing_error(legacy)),
            Ok(k) => if k != PathKind::Directory {
                Err(irregular_legacy_error())
            } else if target_present {
                Err(already_imported_error(campaign_id))
            } else {
                Ok(())
            },
        }
    }
}

/// Whether a legacy snapshot may be moved into the account's store. (The
/// snapshot's resume manifest is read, and checked, between the last two
/// checks.)
pub fn check_legacy_migration(
    campaign_id: &str,
    legacy: &str,
    legacy_kind: &Result<PathKind, String>,
    target_present: bool,
) -> (r: Result<(), String>)
    ensures
        match r {
            Ok(()) => migration_outcome(campaign_id@, legacy@, *legacy_kind, target_present) is Ok,
            Err(e) => migration_outcome(campaign_id@, legacy@, *legacy_kind, target_present) == Err::<(), Seq<char>>(e@),
        },
{
    validate_campaign_id(campaign_id)?;
    match legacy_kind {
        Err(_) => {
            let m = concat_chars(
                &concat_chars(&chars_of("Legacy CCM profile snapshot "), &chars_of(legacy)),
                &chars_of(" was not found."),
            );
            Err(string_from_chars(&m))
        },
        Ok(PathKind::Directory) => if target_present {
            let m = concat_chars(
                &concat_chars(&chars_of("The selected account already has a CCM profile for "), &chars_of(campaign_id)),
                &chars_of("; it was not overwritten."),
            );
            Err(string_from_chars(&m))
        } else {
            Ok(())
        },
        Ok(_) => Err(owned("Legacy CCM profile snapshot must be a regular directory.")),
    }
}

/// `<account store>/.<campaign>.migrating-<uuid>`: where the copy is built
/// before it replaces the target in one step.
pub fn migration_temporary_dir(account_store: &str, campaign_id: &str, uuid: &str) -> (r: String)
    ensures
        r@ == join_path(account_store@, "."@ + campaign_id@ + ".migrating-"@ + uuid@),
{
    let name = concat_chars(
        &concat_chars(&concat_chars(&chars_of("."), &chars_of(campaign_id)), &chars_of(".migrating-")),
        &chars_of(uuid),
    );
    string_from_chars(&join_path_exec(&chars_of(account_store), &name))
}

/// The resume manifest written into the imported copy: the same, marked as migrated.
pub fn migrated_manifest(manifest: CampaignProfileResumeManifest) -> (r: CampaignProfileResumeManifest)
    ensures
        r == (CampaignProfileResumeManifest { legacy_migrated: true, ..manifest }),
{
    let mut m = manifest;
    m.legacy_migrated = true;
    m
}

/// The answer to a migration that copied `files_copied` files.
pub fn legacy_migration(campaign_id: &str, files_copied: usize) -> (r: LegacyProfileMigration)
    ensures
        r.campaign_id@ == campaign_id@,
        r.files_copied == files_copied,
{
    LegacyProfileMigration { campaign_id: owned(campaign_id), files_copied }
}

} // verus!
