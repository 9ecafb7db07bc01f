//! Shared dependency baselines: the state of a `Mods/*.SC2Mod` root before
//! any managed campaign first installed into it, kept so that the last
//! campaign to leave can put it back.

use vstd::prelude::*;
use crate::install::{hex_text, sha256_hex_of_text, sha256_of};
use crate::journal::PathKind;
use crate::paths::{
    components, components_exec, dependency_root_from_destination, dependency_root_spec, join_path, join_path_exec,
    manager_root, manager_root_spec, relative_path_outcome, safe_relative_path,
};
use crate::restore::state_roots;
use crate::state::ManagedState;
use crate::text::{chars_eq, chars_of, concat_chars, lower, lower_exec, owned, string_from_chars};

verus! {

/// The record of one dependency root's state before CCM first changed it.
#[derive(Debug, Clone, PartialEq, Eq)]
pub struct SharedDependencyBaseline {
    pub format: u32,
    pub dependency_root: String,
    pub original_existed: bool,
    pub original_was_file: bool,
    pub backup_dir: String,
}

/// `<game>/.ccm-reborn/shared-dependencies/<sha256 of the lower-cased root>.json`.
pub open spec fn baseline_path_spec(root: Seq<char>, dependency_root: Seq<char>) -> Seq<char> {
    join_path(
        join_path(manager_root_spec(root), "shared-dependencies"@),
        hex_text(sha256_of(vstd::utf8::encode_utf8(lower(dependency_root)))) + ".json"@,
    )
}

/// `shared_baseline_path`: where the baseline of a dependency root is kept,
/// named by the SHA-256 of its ASCII-lower-cased path.
pub fn shared_baseline_path(root: &str, dependency_root: &str) -> (r: String)
    ensures
        r@ == baseline_path_spec(root@, dependency_root@),
{
    let lowered = string_from_chars(&lower_exec(&chars_of(dependency_root)));
    let name = concat_chars(&chars_of(sha256_hex_of_text(lowered.as_str()).as_str()), &chars_of(".json"));
    let dir = join_path_exec(&chars_of(manager_root(root).as_str()), &chars_of("shared-dependencies"));
    string_from_chars(&join_path_exec(&dir, &name))
}

pub open spec fn baseline_mismatch_error() -> Seq<char> {
    "Shared dependency baseline does not match its dependency root."@
}

/// What `read_shared_baseline` accepts: format 1, recorded for this very root.
pub open spec fn baseline_check_outcome(b: SharedDependencyBaseline, dependency_root: Seq<char>) -> Result<(), Seq<char>> {
    if b.format != 1 {
        Err(baseline_mismatch_error())
    } else {
        match relative_path_outcome(b.dependency_root@) {
            Err(e) => Err(e),
            Ok(p) => if components(p) != components(dependency_root) {
                Err(baseline_mismatch_error())
            } else {
                Ok(())
            },
        }
    }
}

fn same_components(a: &str, b: &str) -> (r: bool)
    ensures
        r == (components(a@) == components(b@)),
{
    let ca = components_exec(&chars_of(a));
    let cb = components_exec(&chars_of(b));
    if ca.len() != cb.len() {
        return false;
    }
    let mut i: usize = 0;
    while i < ca.len()
        invariant
            i <= ca@.len(),
            ca@.len() == cb@.len(),
            ca@.len() == components(a@).len(),
            cb@.len() == components(b@).len(),
            forall|k: int| 0 <= k < ca@.len() ==> #[trigger] ca@[k]@ == components(a@)[k],
            forall|k: int| 0 <= k < cb@.len() ==> #[trigger] cb@[k]@ == components(b@)[k],
            forall|k: int| 0 <= k < i ==> components(a@)[k] == components(b@)[k],
        decreases ca.len() - i,
    {
        if !chars_eq(&ca[i], &cb[i]) {
            proof {
                assert(components(a@)[i as int] != components(b@)[i as int]);
            }
            return false;
        }
        i = i + 1;
    }
    proof {
        assert(components(a@) =~= components(b@));
    }
    true
}

/// The validity check of `read_shared_baseline` on a parsed baseline.
pub fn check_shared_baseline(baseline: &SharedDependencyBaseline, dependency_root: &str) -> (r: Result<(), String>)
    ensures
        match r {
            Ok(()) => baseline_check_outcome(*baseline, dependency_root@) is Ok,
            Err(e) => baseline_check_outcome(*baseline, dependency_root@) == Err::<(), Seq<char>>(e@),
        },
{
    if baseline.format != 1 {
        return Err(owned("Shared dependency baseline does not match its dependency root."));
    }
    let p = safe_relative_path(baseline.dependency_root.as_str())?;
    if !same_components(p.as_str(), dependency_root) {
        return Err(owned("Shared dependency baseline does not match its dependency root."));
    }
    Ok(())
}

/// Some managed state installed into `root`.
pub open spec fn root_in_use(root: Seq<char>, states: Seq<ManagedState>) -> bool {
    exists|j: int| 0 <= j < states.len() && state_roots(#[trigger] states[j]).contains(root)
}

fn state_has_root(s: &ManagedState, root: &[char]) -> (r: bool)
    ensures
        r == state_roots(*s).contains(root@),
{
    let mut k: usize = 0;
    while k < s.files.len()
        invariant
            k <= s.files@.len(),
            forall|kk: int| 0 <= kk < k ==> dependency_root_spec(#[trigger] s.files@[kk].destination@) != Some(root@),
        decreases s.files.len() - k,
    {
        match dependency_root_from_destination(s.files[k].destination.as_str()) {
            Some(o) => {
                if chars_eq(&chars_of(o.as_str()), root) {
                    proof {
                        let d = s.files@.map_values(|f: crate::state::ManagedFile| f.destination@);
                        assert(d[k as int] == s.files@[k as int].destination@);
                        assert(dependency_root_spec(d[k as int]) == Some(root@));
                    }
                    return true;
                }
            },
            None => {},
        }
        k = k + 1;
    }
    proof {
        let d = s.files@.map_values(|f: crate::state::ManagedFile| f.destination@);
        if state_roots(*s).contains(root@) {
            let w = choose|w: int| 0 <= w < d.len() && dependency_root_spec(#[trigger] d[w]) == Some(root@);
            assert(d[w] == s.files@[w].destination@);
        }
    }
    false
}

/// Whether an active managed state still installs into a dependency root: a
/// root in use needs no new baseline and keeps its old one.
pub fn dependency_root_in_use(root: &str, states: &[ManagedState]) -> (r: bool)
    ensures
        r == root_in_use(root@, states@),
{
    let rc = chars_of(root);
    let mut j: usize = 0;
    while j < states.len()
        invariant
            j <= states@.len(),
            rc@ == root@,
            forall|jj: int| 0 <= jj < j ==> !state_roots(#[trigger] states@[jj]).contains(root@),
        decreases states.len() - j,
    {
        if state_has_root(&states[j], &rc) {
            return true;
        }
        j = j + 1;
    }
    false
}

// ----------------------------------------------------------------------
// Taking a baseline
// ----------------------------------------------------------------------

pub open spec fn symlinked_baseline_error(source: Seq<char>) -> Seq<char> {
    "Refusing to baseline symlinked dependency "@ + source + "."@
}

pub open spec fn neither_error(path: Seq<char>) -> Seq<char> {
    "Dependency "@ + path + " is neither file nor directory."@
}

/// What a new baseline records of the dependency at `source`, as
/// `(original_existed, original_was_file)`, or why none can be taken.
pub open spec fn baseline_source_outcome(source: Seq<char>, present: bool, kind: Result<PathKind, String>) -> Result<
    (bool, bool),
    Seq<char>,
> {
    if !present {
        Ok((false, false))
    } else {
        match kind {
            Err(e) => Err(e@),
            Ok(k) => if k == PathKind::Symlink {
                Err(symlinked_baseline_error(source))
            } else if k == PathKind::File {
                Ok((true, true))
            } else if k == PathKind::Directory {
                Ok((true, false))
            } else {
                Err(neither_error(source))
            },
        }
    }
}

/// The baseline `ensure_shared_dependency_baselines` writes for a dependency
/// root whose game copy is at `source` (`present` as `Path::exists` says, and
/// `kind` as `symlink_metadata` does), its content kept under `backup_dir`.
pub fn new_shared_baseline(
    dependency_root: &str,
    source: &str,
    present: bool,
    kind: &Result<PathKind, String>,
    backup_dir: String,
) -> (r: Result<SharedDependencyBaseline, String>)
    ensures
        match r {
            Ok(b) => baseline_source_outcome(source@, present, *kind) == Ok::<(bool, bool), Seq<char>>(
                (b.original_existed, b.original_was_file),
            ) && b.format == 1 && b.dependency_root@ == dependency_root@ && b.backup_dir@ == backup_dir@,
            Err(e) => baseline_source_outcome(source@, present, *kind) == Err::<(bool, bool), Seq<char>>(e@),
        },
{
    let (original_existed, original_was_file) = if !present {
        (false, false)
    } else {
        match kind {
            Err(e) => {
                return Err(e.clone());
            },
            Ok(PathKind::Symlink) => {
                let m = concat_chars(
                    &concat_chars(&chars_of("Refusing to baseline symlinked dependency "), &chars_of(source)),
                    &chars_of("."),
                );
                return Err(string_from_chars(&m));
            },
            Ok(PathKind::File) => (true, true),
            Ok(PathKind::Directory) => (true, false),
            Ok(PathKind::Other) => {
                let m = concat_chars(
                    &concat_chars(&chars_of("Dependency "), &chars_of(source)),
                    &chars_of(" is neither file nor directory."),
                );
                return Err(string_from_chars(&m));
            },
        }
    };
    Ok(
        SharedDependencyBaseline {
            format: 1,
            dependency_root: owned(dependency_root),
            original_existed,
            original_was_file,
            backup_dir,
        },
    )
}

/// `shared-dependencies/<uuid>`: where a new baseline keeps its content.
pub fn new_baseline_backup_dir() -> (r: String)
    ensures
        exists|u: Seq<char>| crate::install::is_uuid_text(u) && r@ == "shared-dependencies/"@ + u,
{
    let u = crate::install::new_uuid();
    string_from_chars(&concat_chars(&chars_of("shared-dependencies/"), &chars_of(u.as_str())))
}

// ----------------------------------------------------------------------
// Putting a baseline back
// ----------------------------------------------------------------------

/// `<game>/.ccm-reborn/<backup_dir>` of a baseline.
pub open spec fn baseline_backup_root_spec(root: Seq<char>, b: SharedDependencyBaseline) -> Result<Seq<char>, Seq<char>> {
    match relative_path_outcome(b.backup_dir@) {
        Err(e) => Err(e),
        Ok(rel) => Ok(join_path(manager_root_spec(root), rel)),
    }
}

/// The directory holding a baseline's saved content (removed when the
/// baseline is retired).
pub fn baseline_backup_root(root: &str, baseline: &SharedDependencyBaseline) -> (r: Result<String, String>)
    ensures
        match r {
            Ok(p) => baseline_backup_root_spec(root@, *baseline) == Ok::<Seq<char>, Seq<char>>(p@),
            Err(e) => baseline_backup_root_spec(root@, *baseline) == Err::<Seq<char>, Seq<char>>(e@),
        },
{
    let rel = safe_relative_path(baseline.backup_dir.as_str())?;
    Ok(string_from_chars(&join_path_exec(&chars_of(manager_root(root).as_str()), &chars_of(rel.as_str()))))
}

pub open spec fn symlinked_restore_error(destination: Seq<char>) -> Seq<char> {
    "Refusing to restore symlinked dependency "@ + destination + "."@
}

/// What stands at the dependency's game location must go first: `Some(true)`
/// for a directory, `Some(false)` for a file, `None` when nothing is there.
pub open spec fn removal_outcome(destination: Seq<char>, present: bool, kind: Result<PathKind, String>) -> Result<
    Option<bool>,
    Seq<char>,
> {
    if !present {
        Ok(None)
    } else {
        match kind {
            Err(e) => Err(e@),
            Ok(k) => if k == PathKind::Symlink {
                Err(symlinked_restore_error(destination))
            } else if k == PathKind::Directory {
                Ok(Some(true))
            } else if k == PathKind::File {
                Ok(Some(false))
            } else {
                Err(neither_error(destination))
            },
        }
    }
}

/// The saved content to copy back (`<backup root>/content`), if the
/// dependency existed before CCM first changed it.
pub open spec fn content_outcome(root: Seq<char>, b: SharedDependencyBaseline) -> Result<Option<Seq<char>>, Seq<char>> {
    if !b.original_existed {
        Ok(None)
    } else {
        match baseline_backup_root_spec(root, b) {
            Err(e) => Err(e),
            Ok(p) => Ok(Some(join_path(p, "content"@))),
        }
    }
}

/// How `restore_shared_baseline` puts a dependency root back: remove what
/// stands there, then copy the saved content (a file or a whole tree); an
/// error stops the work at the point where it arises.
#[derive(Debug, Clone, PartialEq, Eq)]
pub struct BaselineRestorePlan {
    /// Remove a directory (`Some(true)`) or a file (`Some(false)`) at the game location.
    pub remove: Option<bool>,
    /// Copy from here, a single file when `original_was_file`.
    pub copy_from: Option<String>,
    pub error: Option<String>,
}

/// The steps of `restore_shared_baseline` for a valid baseline whose
/// dependency lies at `destination` (`safe_game_path`).
pub fn baseline_restore_plan(
    root: &str,
    baseline: &SharedDependencyBaseline,
    destination: &str,
    present: bool,
    kind: &Result<PathKind, String>,
) -> (r: BaselineRestorePlan)
    ensures
        match removal_outcome(destination@, present, *kind) {
            Err(e) => r.remove is None && r.copy_from is None && r.error == Some(
                r.error->0,
            ) && r.error->0@ == e,
            Ok(rm) => r.remove == rm && match content_outcome(root@, *baseline) {
                Err(e) => r.copy_from is None && r.error is Some && r.error->0@ == e,
                Ok(c) => r.error is None && match c {
                    None => r.copy_from is None,
                    Some(p) => r.copy_from is Some && r.copy_from->0@ == p,
                },
            },
        },
{
    let remove = if !present {
        None
    } else {
        match kind {
            Err(e) => {
                return BaselineRestorePlan { remove: None, copy_from: None, error: Some(e.clone()) };
            },
            Ok(PathKind::Symlink) => {
                let m = concat_chars(
                    &concat_chars(&chars_of("Refusing to restore symlinked dependency "), &chars_of(destination)),
                    &chars_of("."),
                );
                return BaselineRestorePlan { remove: None, copy_from: None, error: Some(string_from_chars(&m)) };
            },
            Ok(PathKind::Directory) => Some(true),
            Ok(PathKind::File) => Some(false),
            Ok(PathKind::Other) => {
                let m = concat_chars(
                    &concat_chars(&chars_of("Dependency "), &chars_of(destination)),
                    &chars_of(" is neither file nor directory."),
                );
                return BaselineRestorePlan { remove: None, copy_from: None, error: Some(string_from_chars(&m)) };
            },
        }
    };
    if !baseline.original_existed {
        return BaselineRestorePlan { remove, copy_from: None, error: None };
    }
    match baseline_backup_root(root, baseline) {
        Err(e) => BaselineRestorePlan { remove, copy_from: None, error: Some(e) },
        Ok(p) => BaselineRestorePlan {
            remove,
            copy_from: Some(string_from_chars(&join_path_exec(&chars_of(p.as_str()), &chars_of("content")))),
            error: None,
        },
    }
}

} // verus!
