//! The per-branch record of a managed installation and its validation.

use vstd::prelude::*;
use crate::text::{chars_eq, chars_of, is_ascii_alnum, is_ascii_alnum_exec, owned};
use crate::paths::{
    backup_path_outcome, campaign_target_outcome, campaign_target_wol, components, components_exec,
    dependency_root_from_destination, dependency_root_spec, is_wol_owned_asset_directory,
    is_wol_owned_asset_directory_exec, manager_directory, relative_path_outcome, safe_backup_path,
    safe_campaign_target, safe_relative_path, starts_with_components,
};

verus! {

/// One game file that an installation replaced or created.
#[derive(Debug, Clone, PartialEq, Eq)]
pub struct ManagedFile {
    pub destination: String,
    pub original_existed: bool,
    pub backup_path: Option<String>,
    pub installed_sha256: Option<String>,
}

/// The durable record of the package installed into one campaign branch.
#[derive(Debug, Clone, PartialEq, Eq)]
pub struct ManagedState {
    pub format: u32,
    pub campaign_id: String,
    pub title: String,
    pub author: String,
    pub version: String,
    pub target_path: String,
    pub installed_at: u64,
    pub backup_dir: String,
    pub cleared_directories: Vec<String>,
    pub files: Vec<ManagedFile>,
}

/// The branch a state owns: its target, or (for old records) the first
/// directory it cleared, or the WoL branch.
pub open spec fn state_target(state: ManagedState) -> Seq<char> {
    if state.target_path@.len() > 0 {
        state.target_path@
    } else if state.cleared_directories@.len() > 0 {
        state.cleared_directories@[0]@
    } else {
        campaign_target_wol()
    }
}

impl ManagedState {
    /// The branch the state belongs to: its target path, or else its first
    /// cleared path.
    pub fn target_path_or_first_clear(&self) -> (r: String)
        ensures
            r@ == state_target(*self),
    {
        if !self.target_path.as_str().is_empty() {
            return self.target_path.clone();
        }
        if self.cleared_directories.len() > 0 {
            return self.cleared_directories[0].clone();
        }
        owned("Maps/Campaign")
    }
}

// ----------------------------------------------------------------------
// Campaign identifiers
// ----------------------------------------------------------------------

/// A campaign ID: 1 to 80 characters from `[A-Za-z0-9_-]`. (Counted in
/// bytes or in characters, the limit is the same for text drawn only from
/// this ASCII set, and any other text fails either way.)
pub open spec fn campaign_id_ok(id: Seq<char>) -> bool {
    &&& 0 < id.len() <= 80
    &&& forall|i: int| 0 <= i < id.len() ==> is_ascii_alnum(#[trigger] id[i]) || id[i] == '-' || id[i] == '_'
}

pub open spec fn campaign_id_error() -> Seq<char> {
    "Campaign IDs may use only letters, numbers, dashes, and underscores."@
}

pub fn campaign_id_ok_exec(id: &[char]) -> (r: bool)
    ensures
        r == campaign_id_ok(id@),
{
    if id.len() == 0 || id.len() > 80 {
        return false;
    }
    let mut i: usize = 0;
    while i < id.len()
        invariant
            i <= id.len(),
            forall|j: int| 0 <= j < i ==> is_ascii_alnum(#[trigger] id@[j]) || id@[j] == '-' || id@[j] == '_',
        decreases id.len() - i,
    {
        let c = id[i];
        if !(is_ascii_alnum_exec(c) || c == '-' || c == '_') {
            return false;
        }
        i = i + 1;
    }
    true
}

/// Accepts a campaign ID made only of the characters CCM allows.
pub fn validate_campaign_id(id: &str) -> (r: Result<(), String>)
    ensures
        r is Ok <==> campaign_id_ok(id@),
        r matches Err(e) ==> e@ == campaign_id_error(),
{
    if campaign_id_ok_exec(&chars_of(id)) {
        Ok(())
    } else {
        Err(owned("Campaign IDs may use only letters, numbers, dashes, and underscores."))
    }
}

// ----------------------------------------------------------------------
// Managed-state validation
// ----------------------------------------------------------------------

/// Whether a destination below the WoL directory belongs to the WoL branch:
/// a file directly inside it, or anything inside a `.SC2Map`/`.SC2Mod` folder.
pub open spec fn in_target(target: Seq<char>, destination: Seq<char>) -> bool {
    let d = components(destination);
    let t = components(target);
    starts_with_components(d, t) && (target != campaign_target_wol() || {
        let rest = d.skip(t.len() as int);
        rest.len() <= 1 || is_wol_owned_asset_directory(rest[0])
    })
}

pub open spec fn starts_with_component(path: Seq<char>, first: Seq<char>) -> bool {
    components(path).len() > 0 && components(path)[0] == first
}

pub open spec fn managed_destination_error() -> Seq<char> {
    "Managed installation state has an invalid destination."@
}

pub open spec fn managed_outside_error() -> Seq<char> {
    "Managed installation state contains a file outside its campaign target or Mods."@
}

/// What validating one file record answers (`Ok(())` or the first error).
pub open spec fn managed_file_outcome(target: Seq<char>, file: ManagedFile) -> Result<(), Seq<char>> {
    match relative_path_outcome(file.destination@) {
        Err(e) => Err(e),
        Ok(_) => if starts_with_component(file.destination@, manager_directory()) {
            Err(managed_destination_error())
        } else if !in_target(target, file.destination@) && !starts_with_component(file.destination@, "Mods"@) {
            Err(managed_outside_error())
        } else {
            match file.backup_path {
                Some(b) => match backup_path_outcome(b@) {
                    Err(e) => Err(e),
                    Ok(_) => Ok(()),
                },
                None => Ok(()),
            }
        },
    }
}

/// The first file error among `files` from index `i` on.
pub open spec fn managed_files_outcome(target: Seq<char>, files: Seq<ManagedFile>, i: int) -> Result<(), Seq<char>>
    decreases files.len() - i,
{
    if i < 0 || i >= files.len() {
        Ok(())
    } else {
        match managed_file_outcome(target, files[i]) {
            Err(e) => Err(e),
            Ok(_) => managed_files_outcome(target, files, i + 1),
        }
    }
}

pub open spec fn state_format_error() -> Seq<char> {
    "Managed installation state has an unsupported format."@
}

pub open spec fn state_ownership_error() -> Seq<char> {
    "Managed installation state must own exactly one campaign target."@
}

/// What `validate_managed_state` answers for a state.
pub open spec fn managed_state_outcome(state: ManagedState) -> Result<(), Seq<char>> {
    if state.format != 1 {
        Err(state_format_error())
    } else if !campaign_id_ok(state.campaign_id@) {
        Err(campaign_id_error())
    } else if backup_path_outcome(state.backup_dir@) is Err {
        Err(backup_path_outcome(state.backup_dir@)->Err_0)
    } else if campaign_target_outcome(state_target(state)) is Err {
        Err(campaign_target_outcome(state_target(state))->Err_0)
    } else if state.cleared_directories@.len() != 1 || state.cleared_directories@[0]@ != state_target(state) {
        Err(state_ownership_error())
    } else {
        managed_files_outcome(state_target(state), state.files@, 0)
    }
}

pub fn starts_with_component_exec(path: &str, first: &str) -> (r: bool)
    ensures
        r == starts_with_component(path@, first@),
{
    let cs = components_exec(&chars_of(path));
    cs.len() > 0 && chars_eq(&cs[0], &chars_of(first))
}

fn in_target_exec(target: &str, destination: &str) -> (r: bool)
    ensures
        r == in_target(target@, destination@),
{
    let d = components_exec(&chars_of(destination));
    let t = components_exec(&chars_of(target));
    let ghost dv = d@.map_values(|l: Vec<char>| l@);
    let ghost tv = t@.map_values(|l: Vec<char>| l@);
    proof {
        assert(dv =~= components(destination@));
        assert(tv =~= components(target@));
    }
    if t.len() > d.len() {
        return false;
    }
    let mut i: usize = 0;
    while i < t.len()
        invariant
            i <= t.len() <= d.len(),
            dv == d@.map_values(|l: Vec<char>| l@),
            tv == t@.map_values(|l: Vec<char>| l@),
            dv == components(destination@),
            tv == components(target@),
            dv.take(i as int) == tv.take(i as int),
        decreases t.len() - i,
    {
        if !chars_eq(&d[i], &t[i]) {
            proof {
                assert(dv[i as int] == d@[i as int]@);
                assert(tv[i as int] == t@[i as int]@);
                assert(dv.take(t.len() as int)[i as int] != tv[i as int]);
                assert(dv.take(tv.len() as int) != tv);
            }
            return false;
        }
        proof {
            assert(dv.take(i as int + 1) =~= dv.take(i as int).push(dv[i as int]));
            assert(tv.take(i as int + 1) =~= tv.take(i as int).push(tv[i as int]));
        }
        i = i + 1;
    }
    proof {
        assert(tv.take(tv.len() as int) =~= tv);
    }
    if !chars_eq(&chars_of(target), &chars_of("Maps/Campaign")) {
        return true;
    }
    let rest_len = d.len() - t.len();
    rest_len <= 1 || is_wol_owned_asset_directory_exec(&d[t.len()])
}

fn validate_managed_file(target: &str, file: &ManagedFile) -> (r: Result<(), String>)
    ensures
        match r {
            Ok(_) => managed_file_outcome(target@, *file) is Ok,
            Err(e) => managed_file_outcome(target@, *file) == Err::<(), Seq<char>>(e@),
        },
{
    let _ = safe_relative_path(file.destination.as_str())?;
    if starts_with_component_exec(file.destination.as_str(), ".ccm-reborn") {
        return Err(owned("Managed installation state has an invalid destination."));
    }
    if !in_target_exec(target, file.destination.as_str())
        && !starts_with_component_exec(file.destination.as_str(), "Mods")
    {
        return Err(owned("Managed installation state contains a file outside its campaign target or Mods."));
    }
    match &file.backup_path {
        Some(b) => {
            let _ = safe_backup_path(b.as_str())?;
            Ok(())
        },
        None => Ok(()),
    }
}

/// `validate_managed_state`: a state read from disk is trusted only if it
/// owns exactly one campaign target and every path stays inside the game's
/// campaign branch, `Mods`, or CCM's backups.
pub fn validate_managed_state(state: &ManagedState) -> (r: Result<(), String>)
    ensures
        match r {
            Ok(_) => managed_state_outcome(*state) is Ok,
            Err(e) => managed_state_outcome(*state) == Err::<(), Seq<char>>(e@),
        },
{
    if state.format != 1 {
        return Err(owned("Managed installation state has an unsupported format."));
    }
    validate_campaign_id(state.campaign_id.as_str())?;
    let _ = safe_backup_path(state.backup_dir.as_str())?;
    let target = state.target_path_or_first_clear();
    let _ = safe_campaign_target(target.as_str())?;
    if state.cleared_directories.len() != 1 || !chars_eq(&chars_of(state.cleared_directories[0].as_str()), &chars_of(target.as_str())) {
        return Err(owned("Managed installation state must own exactly one campaign target."));
    }
    let mut i: usize = 0;
    while i < state.files.len()
        invariant
            i <= state.files.len(),
            target@ == state_target(*state),
            managed_state_outcome(*state) == managed_files_outcome(target@, state.files@, 0),
            managed_files_outcome(target@, state.files@, 0) == managed_files_outcome(target@, state.files@, i as int),
        decreases state.files.len() - i,
    {
        validate_managed_file(target.as_str(), &state.files[i])?;
        i = i + 1;
    }
    Ok(())
}

} // verus!
