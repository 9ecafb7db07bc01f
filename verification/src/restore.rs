//! Putting a campaign branch back the way it was before a package was
//! installed: which dependency roots other branches still share, which game
//! files drifted, and which copies and removals bring the originals back.

use vstd::prelude::*;
use crate::inspection::RestoreResult;
use crate::journal::{PathKind, PreviousInstalledFile};
use crate::paths::{
    backup_path_outcome, components, components_exec, dependency_root_from_destination, dependency_root_spec,
    dependency_roots, join_path, join_path_exec, manager_root, manager_root_spec, relative_path_outcome, roots_of,
    is_wol_owned_asset_directory, is_wol_owned_asset_directory_exec, safe_backup_path, safe_relative_path,
};
use crate::state::{state_target, ManagedFile, ManagedState};
use crate::text::{
    chars_eq, chars_of, concat_chars, eq_ignore_case_exec, lower, owned, starts_with, starts_with_exec,
    string_from_chars, views,
};

verus! {

/// What `symlink_metadata` answered for a path.
#[derive(Debug, Clone, PartialEq, Eq)]
pub enum Probe {
    /// Nothing stands at the path.
    Missing,
    /// The query failed for another reason, with the error's text.
    Failed(String),
    /// Something of this kind stands there.
    Found(PathKind),
}

/// What the game directory shows for one managed file.
#[derive(Debug, PartialEq, Eq)]
pub struct GameFileCheck {
    /// The file's checked location in the game (`safe_game_path`), or why it has none.
    pub location: Result<String, String>,
    /// What stands at that location.
    pub probe: Probe,
    /// The SHA-256 (lower-case hex) of what stands there, or why it could not be read.
    pub sha256: Result<String, String>,
    /// Whether the file's backup (see `backup_file_location`) is a regular file.
    pub backup_is_file: bool,
    /// The SHA-256 of the file's backup, when it has a valid backup path and could be read.
    pub backup_sha256: Option<String>,
}

/// The destinations of a list of managed files.
pub open spec fn file_destinations(files: Seq<ManagedFile>) -> Seq<Seq<char>> {
    files.map_values(|f: ManagedFile| f.destination@)
}

/// The dependency roots a managed state installed into.
pub open spec fn state_roots(state: ManagedState) -> Set<Seq<char>> {
    roots_of(file_destinations(state.files@))
}

fn destinations_of(files: &Vec<ManagedFile>) -> (r: Vec<String>)
    ensures
        views(r@) == file_destinations(files@),
{
    let mut out: Vec<String> = Vec::new();
    let mut i: usize = 0;
    while i < files.len()
        invariant
            i <= files@.len(),
            views(out@) == file_destinations(files@).take(i as int),
        decreases files.len() - i,
    {
        let ghost before = out@;
        let d = files[i].destination.clone();
        assert(d@ == files@[i as int].destination@);
        out.push(d);
        proof {
            assert(views(out@) =~= views(before).push(d@));
            assert(views(out@) =~= file_destinations(files@).take(i as int + 1));
        }
        i = i + 1;
    }
    proof {
        assert(file_destinations(files@).take(i as int) =~= file_destinations(files@));
    }
    out
}

/// Each dependency root a state installed into, once (no order is promised).
pub fn state_dependency_roots(state: &ManagedState) -> (r: Vec<String>)
    ensures
        views(r@).no_duplicates(),
        views(r@).to_set() == state_roots(*state),
{
    dependency_roots(&destinations_of(&state.files))
}

// ----------------------------------------------------------------------
// Roots shared with other branches
// ----------------------------------------------------------------------

/// `o` names the same root as `root`, ASCII case ignored.
pub open spec fn same_root_name(o: Option<Seq<char>>, root: Seq<char>) -> bool {
    match o {
        Some(x) => lower(x) == lower(root),
        None => false,
    }
}

/// Some file of `s` lies in a root named like `root`.
pub open spec fn state_uses_root_name(s: ManagedState, root: Seq<char>) -> bool {
    exists|k: int| 0 <= k < s.files@.len() && same_root_name(dependency_root_spec(#[trigger] s.files@[k].destination@), root)
}

/// A state for another branch than `target` installs into a root named like `root`.
pub open spec fn root_used_elsewhere(root: Seq<char>, target: Seq<char>, states: Seq<ManagedState>) -> bool {
    exists|j: int| 0 <= j < states.len() && state_target(#[trigger] states[j]) != target && state_uses_root_name(states[j], root)
}

/// The roots of `state` that another branch's state also installed into.
pub open spec fn shared_roots_spec(state: ManagedState, states: Seq<ManagedState>) -> Set<Seq<char>> {
    state_roots(state).filter(|r: Seq<char>| root_used_elsewhere(r, state_target(state), states))
}

fn state_uses_root_name_exec(s: &ManagedState, root: &[char]) -> (r: bool)
    ensures
        r == state_uses_root_name(*s, root@),
{
    let mut k: usize = 0;
    while k < s.files.len()
        invariant
            k <= s.files@.len(),
            forall|kk: int| 0 <= kk < k ==> !same_root_name(dependency_root_spec(#[trigger] s.files@[kk].destination@), root@),
        decreases s.files.len() - k,
    {
        match dependency_root_from_destination(s.files[k].destination.as_str()) {
            Some(o) => {
                if eq_ignore_case_exec(&chars_of(o.as_str()), root) {
                    proof {
                        assert(same_root_name(dependency_root_spec(s.files@[k as int].destination@), root@));
                    }
                    return true;
                }
            },
            None => {},
        }
        k = k + 1;
    }
    false
}

fn root_used_elsewhere_exec(root: &[char], target: &[char], states: &[ManagedState]) -> (r: bool)
    ensures
        r == root_used_elsewhere(root@, target@, states@),
{
    let mut j: usize = 0;
    while j < states.len()
        invariant
            j <= states@.len(),
            forall|jj: int|
                0 <= jj < j ==> !(state_target(#[trigger] states@[jj]) != target@ && state_uses_root_name(states@[jj], root@)),
        decreases states.len() - j,
    {
        let t = states[j].target_path_or_first_clear();
        if !chars_eq(&chars_of(t.as_str()), target) && state_uses_root_name_exec(&states[j], root) {
            proof {
                assert(state_target(states@[j as int]) != target@ && state_uses_root_name(states@[j as int], root@));
            }
            return true;
        }
        j = j + 1;
    }
    false
}

/// `shared_dependency_roots`: the dependency roots of `state` that a state
/// for another branch (among all managed `states`) also installed into,
/// compared by name with ASCII case ignored. Each root once; no order is promised.
pub fn shared_dependency_roots(state: &ManagedState, states: &[ManagedState]) -> (r: Vec<String>)
    ensures
        views(r@).no_duplicates(),
        views(r@).to_set() == shared_roots_spec(*state, states@),
{
    let own = state_dependency_roots(state);
    let target = chars_of(state.target_path_or_first_clear().as_str());
    let ghost ov = views(own@);
    let mut out: Vec<String> = Vec::new();
    let mut i: usize = 0;
    while i < own.len()
        invariant
            i <= own@.len(),
            ov == views(own@),
            ov.no_duplicates(),
            target@ == state_target(*state),
            views(out@).no_duplicates(),
            forall|x: Seq<char>| #[trigger]
                views(out@).contains(x) ==> ov.take(i as int).contains(x) && root_used_elsewhere(x, target@, states@),
            forall|k: int|
                0 <= k < i && root_used_elsewhere(#[trigger] ov[k], target@, states@) ==> views(out@).contains(ov[k]),
        decreases own.len() - i,
    {
        let ghost before = views(out@);
        proof {
            assert(ov.take(i as int + 1) =~= ov.take(i as int).push(ov[i as int]));
        }
        if root_used_elsewhere_exec(&chars_of(own[i].as_str()), &target, states) {
            out.push(own[i].clone());
            proof {
                assert(views(out@) =~= before.push(ov[i as int]));
                assert(!before.contains(ov[i as int])) by {
                    if before.contains(ov[i as int]) {
                        assert(ov.take(i as int).contains(ov[i as int]));
                        let w = choose|w: int| 0 <= w < i && ov.take(i as int)[w] == ov[i as int];
                        assert(ov[w] == ov[i as int]);
                    }
                }
                assert forall|x: Seq<char>| #[trigger] views(out@).contains(x) implies ov.take(i as int + 1).contains(x)
                    && root_used_elsewhere(x, target@, states@) by {
                    if x != ov[i as int] {
                        assert(before.contains(x));
                        let w = choose|w: int| 0 <= w < i && ov.take(i as int)[w] == x;
                        assert(ov.take(i as int + 1)[w] == x);
                    } else {
                        assert(ov.take(i as int + 1)[i as int] == x);
                    }
                }
                assert forall|k: int| 0 <= k < i + 1 && root_used_elsewhere(#[trigger] ov[k], target@, states@) implies views(
                    out@,
                ).contains(ov[k]) by {
                    if k < i {
                        assert(before.contains(ov[k]));
                        let w = choose|w: int| 0 <= w < before.len() && before[w] == ov[k];
                        assert(views(out@)[w] == ov[k]);
                    } else {
                        assert(views(out@)[before.len() as int] == ov[k]);
                    }
                }
            }
        } else {
            proof {
                assert forall|x: Seq<char>| #[trigger] views(out@).contains(x) implies ov.take(i as int + 1).contains(x)
                    && root_used_elsewhere(x, target@, states@) by {
                    let w = choose|w: int| 0 <= w < i && ov.take(i as int)[w] == x;
                    assert(ov.take(i as int + 1)[w] == x);
                }
            }
        }
        i = i + 1;
    }
    proof {
        assert(ov.take(i as int) =~= ov);
        assert(views(out@).to_set() =~= shared_roots_spec(*state, states@)) by {
            assert forall|x: Seq<char>| #[trigger] views(out@).to_set().contains(x) implies shared_roots_spec(
                *state,
                states@,
            ).contains(x) by {
                assert(views(out@).contains(x));
                assert(ov.to_set().contains(x));
            }
            assert forall|x: Seq<char>| #[trigger] shared_roots_spec(*state, states@).contains(x) implies views(
                out@,
            ).to_set().contains(x) by {
                assert(ov.to_set().contains(x));
                let k = choose|k: int| 0 <= k < ov.len() && ov[k] == x;
                assert(root_used_elsewhere(ov[k], target@, states@));
            }
        }
    }
    out
}

/// The destination lies inside one of `roots`.
pub open spec fn under_roots(destination: Seq<char>, roots: Seq<Seq<char>>) -> bool {
    match dependency_root_spec(destination) {
        Some(r) => roots.contains(r),
        None => false,
    }
}

fn contains_string(xs: &[String], x: &[char]) -> (r: bool)
    ensures
        r == views(xs@).contains(x@),
{
    let mut i: usize = 0;
    while i < xs.len()
        invariant
            i <= xs@.len(),
            forall|k: int| 0 <= k < i ==> #[trigger] views(xs@)[k] != x@,
        decreases xs.len() - i,
    {
        if chars_eq(&chars_of(xs[i].as_str()), x) {
            proof {
                assert(views(xs@)[i as int] == x@);
            }
            return true;
        }
        i = i + 1;
    }
    false
}

/// Whether a destination lies at or below one of the roots.
pub fn destination_is_under_roots(destination: &str, roots: &[String]) -> (r: bool)
    ensures
        r == under_roots(destination@, views(roots@)),
{
    match dependency_root_from_destination(destination) {
        Some(root) => contains_string(roots, &chars_of(root.as_str())),
        None => false,
    }
}

/// The roots of `state` outside both `shared` and `baseline`.
pub open spec fn roots_outside_spec(state: ManagedState, shared: Seq<Seq<char>>, baseline: Seq<Seq<char>>) -> Set<Seq<char>> {
    state_roots(state).filter(|r: Seq<char>| !shared.contains(r) && !baseline.contains(r))
}

/// The dependency roots of `state` that are in neither list: those a
/// restore may check for a shared baseline (with an empty `baseline`), and
/// those it then clears. Each root once; no order is promised.
pub fn roots_outside(state: &ManagedState, shared: &[String], baseline: &[String]) -> (r: Vec<String>)
    ensures
        views(r@).no_duplicates(),
        views(r@).to_set() == roots_outside_spec(*state, views(shared@), views(baseline@)),
{
    let own = state_dependency_roots(state);
    let ghost ov = views(own@);
    let mut out: Vec<String> = Vec::new();
    let mut i: usize = 0;
    while i < own.len()
        invariant
            i <= own@.len(),
            ov == views(own@),
            ov.no_duplicates(),
            views(out@).no_duplicates(),
            forall|x: Seq<char>| #[trigger]
                views(out@).contains(x) ==> ov.take(i as int).contains(x) && !views(shared@).contains(x) && !views(
                    baseline@,
                ).contains(x),
            forall|k: int|
                0 <= k < i && !views(shared@).contains(#[trigger] ov[k]) && !views(baseline@).contains(ov[k])
                    ==> views(out@).contains(ov[k]),
        decreases own.len() - i,
    {
        let ghost before = views(out@);
        let rc = chars_of(own[i].as_str());
        if !contains_string(shared, &rc) && !contains_string(baseline, &rc) {
            out.push(own[i].clone());
            proof {
                assert(views(out@) =~= before.push(ov[i as int]));
                assert(!before.contains(ov[i as int])) by {
                    if before.contains(ov[i as int]) {
                        let w = choose|w: int| 0 <= w < i && ov.take(i as int)[w] == ov[i as int];
                        assert(ov[w] == ov[i as int]);
                    }
                }
                assert forall|x: Seq<char>| #[trigger] views(out@).contains(x) implies ov.take(i as int + 1).contains(x)
                    && !views(shared@).contains(x) && !views(baseline@).contains(x) by {
                    if x != ov[i as int] {
                        assert(before.contains(x));
                        let w = choose|w: int| 0 <= w < i && ov.take(i as int)[w] == x;
                        assert(ov.take(i as int + 1)[w] == x);
                    } else {
                        assert(ov.take(i as int + 1)[i as int] == x);
                    }
                }
                assert forall|k: int|
                    0 <= k < i + 1 && !views(shared@).contains(#[trigger] ov[k]) && !views(baseline@).contains(ov[k]) implies views(
                    out@,
                ).contains(ov[k]) by {
                    if k < i {
                        let w = choose|w: int| 0 <= w < before.len() && before[w] == ov[k];
                        assert(views(out@)[w] == ov[k]);
                    } else {
                        assert(views(out@)[before.len() as int] == ov[k]);
                    }
                }
            }
        } else {
            proof {
                assert forall|x: Seq<char>| #[trigger] views(out@).contains(x) implies ov.take(i as int + 1).contains(x)
                    && !views(shared@).contains(x) && !views(baseline@).contains(x) by {
                    let w = choose|w: int| 0 <= w < i && ov.take(i as int)[w] == x;
                    assert(ov.take(i as int + 1)[w] == x);
                }
            }
        }
        i = i + 1;
    }
    proof {
        assert(ov.take(i as int) =~= ov);
        assert(views(out@).to_set() =~= roots_outside_spec(*state, views(shared@), views(baseline@))) by {
            assert forall|x: Seq<char>| #[trigger] views(out@).to_set().contains(x) implies roots_outside_spec(
                *state,
                views(shared@),
                views(baseline@),
            ).contains(x) by {
                assert(views(out@).contains(x));
                assert(ov.to_set().contains(x));
            }
            assert forall|x: Seq<char>| #[trigger] roots_outside_spec(*state, views(shared@), views(baseline@)).contains(
                x,
            ) implies views(out@).to_set().contains(x) by {
                assert(ov.to_set().contains(x));
                let k = choose|k: int| 0 <= k < ov.len() && ov[k] == x;
                assert(!views(shared@).contains(ov[k]));
            }
        }
    }
    out
}

// ----------------------------------------------------------------------
// Drift before a restore
// ----------------------------------------------------------------------

/// Where a managed file's backup lies: `<game>/.ccm-reborn/<backup path>`,
/// when it has a valid backup path.
pub open spec fn backup_location_spec(root: Seq<char>, backup_path: Option<String>) -> Option<Seq<char>> {
    match backup_path {
        None => None,
        Some(bp) => match backup_path_outcome(bp@) {
            Ok(rel) => Some(join_path(manager_root_spec(root), rel)),
            Err(_) => None,
        },
    }
}

/// The file to read for a managed file's backup (see `GameFileCheck`).
pub fn backup_file_location(root: &str, backup_path: &Option<String>) -> (r: Option<String>)
    ensures
        match r {
            Some(p) => backup_location_spec(root@, *backup_path) == Some(p@),
            None => backup_location_spec(root@, *backup_path) is None,
        },
{
    match backup_path {
        None => None,
        Some(bp) => match safe_backup_path(bp.as_str()) {
            Ok(rel) => Some(
                string_from_chars(&join_path_exec(&chars_of(manager_root(root).as_str()), &chars_of(rel.as_str()))),
            ),
            Err(_) => None,
        },
    }
}

/// The hash a managed file should have: the installed one, else its backup's.
pub open spec fn expected_sha(f: ManagedFile, c: GameFileCheck) -> Option<Seq<char>> {
    match f.installed_sha256 {
        Some(h) => Some(h@),
        None => match c.backup_sha256 {
            Some(h) => Some(h@),
            None => None,
        },
    }
}

/// A managed file has drifted: a package file is gone, or what stands there
/// is not what CCM installed (or, for a file it left alone, not what it backed up).
pub open spec fn is_conflict(f: ManagedFile, c: GameFileCheck) -> bool {
    if c.probe != Probe::Found(PathKind::File) {
        f.installed_sha256 is Some
    } else {
        match expected_sha(f, c) {
            None => true,
            Some(e) => match c.sha256 {
                Ok(a) => a@ != e,
                Err(_) => true,
            },
        }
    }
}

fn is_conflict_exec(f: &ManagedFile, c: &GameFileCheck) -> (r: bool)
    ensures
        r == is_conflict(*f, *c),
{
    let is_file = match &c.probe {
        Probe::Found(PathKind::File) => true,
        _ => false,
    };
    if !is_file {
        return f.installed_sha256.is_some();
    }
    let expected: Option<&String> = match &f.installed_sha256 {
        Some(h) => Some(h),
        None => match &c.backup_sha256 {
            Some(h) => Some(h),
            None => None,
        },
    };
    match expected {
        None => true,
        Some(e) => match &c.sha256 {
            Ok(a) => !chars_eq(&chars_of(a.as_str()), &chars_of(e.as_str())),
            Err(_) => true,
        },
    }
}

/// The drifted destinations from file `i` on (outside the shared roots), or
/// the first file whose location could not be checked.
pub open spec fn conflicts_from(
    files: Seq<ManagedFile>,
    shared: Seq<Seq<char>>,
    checks: Seq<GameFileCheck>,
    i: int,
) -> Result<Seq<Seq<char>>, Seq<char>>
    decreases files.len() - i,
{
    if i < 0 || i >= files.len() {
        Ok(Seq::empty())
    } else if under_roots(files[i].destination@, shared) {
        conflicts_from(files, shared, checks, i + 1)
    } else {
        match checks[i].location {
            Err(e) => Err(e@),
            Ok(_) => match conflicts_from(files, shared, checks, i + 1) {
                Err(e) => Err(e),
                Ok(rest) => if is_conflict(files[i], checks[i]) {
                    Ok(seq![files[i].destination@] + rest)
                } else {
                    Ok(rest)
                },
            },
        }
    }
}

/// The drift check of `restore_existing_campaign`: every managed file outside
/// the roots other branches share, in order, whose game copy is gone or
/// changed. A file whose location cannot be checked fails the restore.
pub fn restore_conflicts(state: &ManagedState, shared_roots: &[String], checks: &[GameFileCheck]) -> (r: Result<
    Vec<String>,
    String,
>)
    requires
        checks@.len() == state.files@.len(),
    ensures
        match r {
            Ok(c) => conflicts_from(state.files@, views(shared_roots@), checks@, 0) == Ok::<
                Seq<Seq<char>>,
                Seq<char>,
            >(views(c@)),
            Err(e) => conflicts_from(state.files@, views(shared_roots@), checks@, 0) == Err::<
                Seq<Seq<char>>,
                Seq<char>,
            >(e@),
        },
{
    let ghost files = state.files@;
    let ghost shared = views(shared_roots@);
    let mut out: Vec<String> = Vec::new();
    let mut i: usize = 0;
    while i < state.files.len()
        invariant
            i <= files.len(),
            files == state.files@,
            shared == views(shared_roots@),
            checks@.len() == files.len(),
            conflicts_from(files, shared, checks@, 0) == match conflicts_from(files, shared, checks@, i as int) {
                Ok(rest) => Ok::<Seq<Seq<char>>, Seq<char>>(views(out@) + rest),
                Err(e) => Err(e),
            },
        decreases files.len() - i,
    {
        let f = &state.files[i];
        if !destination_is_under_roots(f.destination.as_str(), shared_roots) {
            match &checks[i].location {
                Err(e) => {
                    return Err(e.clone());
                },
                Ok(_) => {
                    if is_conflict_exec(f, &checks[i]) {
                        let ghost before = views(out@);
                        out.push(f.destination.clone());
                        proof {
                            assert(views(out@) =~= before.push(files[i as int].destination@));
                            match conflicts_from(files, shared, checks@, i as int + 1) {
                                Ok(rest) => {
                                    assert(before + (seq![files[i as int].destination@] + rest) =~= views(out@) + rest);
                                },
                                Err(_) => {},
                            }
                        }
                    }
                },
            }
        }
        i = i + 1;
    }
    proof {
        assert(views(out@) + Seq::<Seq<char>>::empty() =~= views(out@));
    }
    Ok(out)
}

/// `RestoreResult` of a restore: nothing without a managed state; the
/// conflicts, and no restored file, when there are any; else every managed
/// file restored.
pub fn restore_result(state: &Option<ManagedState>, conflicts: Vec<String>) -> (r: RestoreResult)
    ensures
        match state {
            None => r.restored_files == 0 && r.conflicts@.len() == 0,
            Some(s) => if conflicts@.len() == 0 {
                r.restored_files == s.files@.len() && r.conflicts@.len() == 0
            } else {
                r.restored_files == 0 && r.conflicts@ == conflicts@
            },
        },
{
    match state {
        None => RestoreResult { restored_files: 0, conflicts: Vec::new() },
        Some(s) => if conflicts.len() == 0 {
            RestoreResult { restored_files: s.files.len(), conflicts: Vec::new() }
        } else {
            RestoreResult { restored_files: 0, conflicts }
        },
    }
}

// ----------------------------------------------------------------------
// Copies and removals that bring the originals back
// ----------------------------------------------------------------------

/// One change to a game file.
#[derive(Debug, Clone, PartialEq, Eq)]
pub enum FileStep {
    /// Copy `from` over the game file `to`.
    Copy { from: String, to: String },
    /// Remove the game file if a regular file stands there.
    RemoveIfFile(String),
}

/// A `FileStep` as text.
pub enum FileStepView {
    Copy(Seq<char>, Seq<char>),
    RemoveIfFile(Seq<char>),
}

impl View for FileStep {
    type V = FileStepView;

    open spec fn view(&self) -> FileStepView {
        match self {
            FileStep::Copy { from, to } => FileStepView::Copy(from@, to@),
            FileStep::RemoveIfFile(p) => FileStepView::RemoveIfFile(p@),
        }
    }
}

/// The steps to carry out in order, and the error that stops the work after them.
#[derive(Debug, Clone, PartialEq, Eq)]
pub struct FileRestorePlan {
    pub steps: Vec<FileStep>,
    pub error: Option<String>,
}

pub open spec fn missing_backup_path_error() -> Seq<char> {
    "A backup path is missing from the managed state."@
}

pub open spec fn missing_backup_error(destination: Seq<char>) -> Seq<char> {
    "Backup for "@ + destination + " is missing; refusing to continue."@
}

/// What restoring one managed file does: copy its backup back when the
/// original existed, else remove what the package put there.
pub open spec fn file_step(root: Seq<char>, f: ManagedFile, c: GameFileCheck) -> Result<FileStepView, Seq<char>> {
    match c.location {
        Err(e) => Err(e@),
        Ok(dest) => if f.original_existed {
            match f.backup_path {
                None => Err(missing_backup_path_error()),
                Some(bp) => match backup_path_outcome(bp@) {
                    Err(e) => Err(e),
                    Ok(rel) => if c.backup_is_file {
                        Ok(FileStepView::Copy(join_path(manager_root_spec(root), rel), dest@))
                    } else {
                        Err(missing_backup_error(f.destination@))
                    },
                },
            }
        } else {
            Ok(FileStepView::RemoveIfFile(dest@))
        },
    }
}

/// The steps for files `i..`, skipping those under `shared` or `baseline`,
/// up to the first file that cannot be restored, and that file's error.
pub open spec fn steps_from(
    root: Seq<char>,
    files: Seq<ManagedFile>,
    shared: Seq<Seq<char>>,
    baseline: Seq<Seq<char>>,
    checks: Seq<GameFileCheck>,
    i: int,
) -> (Seq<FileStepView>, Option<Seq<char>>)
    decreases files.len() - i,
{
    if i < 0 || i >= files.len() {
        (Seq::empty(), None)
    } else if under_roots(files[i].destination@, shared) || under_roots(files[i].destination@, baseline) {
        steps_from(root, files, shared, baseline, checks, i + 1)
    } else {
        match file_step(root, files[i], checks[i]) {
            Err(e) => (Seq::empty(), Some(e)),
            Ok(s) => {
                let rest = steps_from(root, files, shared, baseline, checks, i + 1);
                (seq![s] + rest.0, rest.1)
            },
        }
    }
}

/// The per-file part of `force_restore` (skipping the roots another branch
/// shares and those a shared baseline restored) and, with both lists empty,
/// of `restore_failed_install_exactly`.
pub fn file_restore_plan(
    root: &str,
    state: &ManagedState,
    shared_roots: &[String],
    baseline_roots: &[String],
    checks: &[GameFileCheck],
) -> (r: FileRestorePlan)
    requires
        checks@.len() == state.files@.len(),
    ensures
        r.steps@.map_values(|s: FileStep| s@) == steps_from(
            root@,
            state.files@,
            views(shared_roots@),
            views(baseline_roots@),
            checks@,
            0,
        ).0,
        match r.error {
            Some(e) => steps_from(root@, state.files@, views(shared_roots@), views(baseline_roots@), checks@, 0).1 == Some(e@),
            None => steps_from(root@, state.files@, views(shared_roots@), views(baseline_roots@), checks@, 0).1 is None,
        },
{
    let ghost files = state.files@;
    let ghost shared = views(shared_roots@);
    let ghost baseline = views(baseline_roots@);
    let ghost whole = steps_from(root@, files, shared, baseline, checks@, 0);
    let store = manager_root(root);
    let mut steps: Vec<FileStep> = Vec::new();
    let mut i: usize = 0;
    while i < state.files.len()
        invariant
            i <= files.len(),
            files == state.files@,
            shared == views(shared_roots@),
            baseline == views(baseline_roots@),
            checks@.len() == files.len(),
            store@ == manager_root_spec(root@),
            whole == steps_from(root@, files, shared, baseline, checks@, 0),
            whole.0 == steps@.map_values(|s: FileStep| s@) + steps_from(root@, files, shared, baseline, checks@, i as int).0,
            whole.1 == steps_from(root@, files, shared, baseline, checks@, i as int).1,
        decreases files.len() - i,
    {
        let f = &state.files[i];
        let c = &checks[i];
        if !destination_is_under_roots(f.destination.as_str(), shared_roots) && !destination_is_under_roots(
            f.destination.as_str(),
            baseline_roots,
        ) {
            let ghost before = steps@.map_values(|s: FileStep| s@);
            let step: Result<FileStep, String> = match &c.location {
                Err(e) => Err(e.clone()),
                Ok(dest) => if f.original_existed {
                    match &f.backup_path {
                        None => Err(owned("A backup path is missing from the managed state.")),
                        Some(bp) => match safe_backup_path(bp.as_str()) {
                            Err(e) => Err(e),
                            Ok(rel) => if c.backup_is_file {
                                Ok(
                                    FileStep::Copy {
                                        from: string_from_chars(
                                            &join_path_exec(&chars_of(store.as_str()), &chars_of(rel.as_str())),
                                        ),
                                        to: dest.clone(),
                                    },
                                )
                            } else {
                                let m = concat_chars(
                                    &concat_chars(&chars_of("Backup for "), &chars_of(f.destination.as_str())),
                                    &chars_of(" is missing; refusing to continue."),
                                );
                                Err(string_from_chars(&m))
                            },
                        },
                    }
                } else {
                    Ok(FileStep::RemoveIfFile(dest.clone()))
                },
            };
            match step {
                Err(e) => {
                    proof {
                        assert(before + Seq::<FileStepView>::empty() =~= before);
                    }
                    return FileRestorePlan { steps, error: Some(e) };
                },
                Ok(s) => {
                    proof {
                        assert(file_step(root@, files[i as int], checks@[i as int]) == Ok::<FileStepView, Seq<char>>(s@));
                    }
                    steps.push(s);
                    proof {
                        let rest = steps_from(root@, files, shared, baseline, checks@, i as int + 1);
                        assert(steps@.map_values(|s: FileStep| s@) =~= before.push(s@));
                        assert(before + (seq![s@] + rest.0) =~= before.push(s@) + rest.0);
                    }
                },
            }
        }
        i = i + 1;
    }
    proof {
        assert(steps@.map_values(|s: FileStep| s@) + Seq::<FileStepView>::empty() =~= steps@.map_values(|s: FileStep| s@));
    }
    FileRestorePlan { steps, error: None }
}

// ----------------------------------------------------------------------
// Whether an old install still owns the game
// ----------------------------------------------------------------------

pub open spec fn symlinked_package_file_error(location: Seq<char>) -> Seq<char> {
    "Managed package file "@ + location + " is a symlink; refusing recovery."@
}

/// `managed_install_files_match` from file `i` on, `seen` telling whether a
/// package file was already checked.
pub open spec fn files_match_from(files: Seq<ManagedFile>, checks: Seq<GameFileCheck>, i: int, seen: bool) -> Result<
    bool,
    Seq<char>,
>
    decreases files.len() - i,
{
    if i < 0 || i >= files.len() {
        Ok(seen)
    } else {
        match files[i].installed_sha256 {
            None => files_match_from(files, checks, i + 1, seen),
            Some(expected) => match checks[i].location {
                Err(e) => Err(e@),
                Ok(loc) => match checks[i].probe {
                    Probe::Missing => Ok(false),
                    Probe::Failed(e) => Err(e@),
                    Probe::Found(k) => if k == PathKind::Symlink {
                        Err(symlinked_package_file_error(loc@))
                    } else if k != PathKind::File {
                        Ok(false)
                    } else {
                        match checks[i].sha256 {
                            Err(e) => Err(e@),
                            Ok(a) => if a@ != expected@ {
                                Ok(false)
                            } else {
                                files_match_from(files, checks, i + 1, true)
                            },
                        }
                    },
                },
            },
        }
    }
}

/// `managed_install_files_match`: every package file of `state` still stands
/// in the game with the hash CCM installed, and there is at least one.
pub fn managed_install_files_match(state: &ManagedState, checks: &[GameFileCheck]) -> (r: Result<bool, String>)
    requires
        checks@.len() == state.files@.len(),
    ensures
        match r {
            Ok(b) => files_match_from(state.files@, checks@, 0, false) == Ok::<bool, Seq<char>>(b),
            Err(e) => files_match_from(state.files@, checks@, 0, false) == Err::<bool, Seq<char>>(e@),
        },
{
    let ghost files = state.files@;
    let mut seen = false;
    let mut i: usize = 0;
    while i < state.files.len()
        invariant
            i <= files.len(),
            files == state.files@,
            checks@.len() == files.len(),
            files_match_from(files, checks@, 0, false) == files_match_from(files, checks@, i as int, seen),
        decreases files.len() - i,
    {
        let f = &state.files[i];
        let c = &checks[i];
        match &f.installed_sha256 {
            None => {},
            Some(expected) => {
                let loc = match &c.location {
                    Err(e) => {
                        return Err(e.clone());
                    },
                    Ok(l) => l,
                };
                match &c.probe {
                    Probe::Missing => {
                        return Ok(false);
                    },
                    Probe::Failed(e) => {
                        return Err(e.clone());
                    },
                    Probe::Found(PathKind::Symlink) => {
                        let m = concat_chars(
                            &concat_chars(&chars_of("Managed package file "), &chars_of(loc.as_str())),
                            &chars_of(" is a symlink; refusing recovery."),
                        );
                        return Err(string_from_chars(&m));
                    },
                    Probe::Found(PathKind::File) => {},
                    Probe::Found(_) => {
                        return Ok(false);
                    },
                }
                match &c.sha256 {
                    Err(e) => {
                        return Err(e.clone());
                    },
                    Ok(a) => {
                        if !chars_eq(&chars_of(a.as_str()), &chars_of(expected.as_str())) {
                            return Ok(false);
                        }
                    },
                }
                seen = true;
            },
        }
        i = i + 1;
    }
    Ok(seen)
}

// ----------------------------------------------------------------------
// Checked locations in the game directory
// ----------------------------------------------------------------------

/// The path reached after pushing components `0..=i` of `cs` onto `root`.
pub open spec fn pushed_path(root: Seq<char>, cs: Seq<Seq<char>>, i: int) -> Seq<char>
    decreases i,
{
    if i <= 0 {
        join_path(root, cs[0])
    } else {
        join_path(pushed_path(root, cs, i - 1), cs[i])
    }
}

/// The paths `safe_game_path` inspects for `relative` under `root`, one per component.
pub open spec fn prefixes_spec(root: Seq<char>, relative: Seq<char>) -> Seq<Seq<char>> {
    Seq::new(components(relative).len(), |i: int| pushed_path(root, components(relative), i))
}

/// The paths to probe (with `symlink_metadata`) before `safe_game_path`
/// can place `relative` under `root`: the game root plus one component, two,
/// and so on; or why `relative` is not a safe relative path.
pub fn game_path_prefixes(root: &str, relative: &str) -> (r: Result<Vec<String>, String>)
    ensures
        match r {
            Ok(ps) => relative_path_outcome(relative@) is Ok && views(ps@) == prefixes_spec(root@, relative@),
            Err(e) => relative_path_outcome(relative@) == Err::<Seq<char>, Seq<char>>(e@),
        },
{
    safe_relative_path(relative)?;
    let cs = components_exec(&chars_of(relative));
    let ghost csv = components(relative@);
    let rc = chars_of(root);
    let mut cur: Vec<char> = Vec::new();
    let mut out: Vec<String> = Vec::new();
    let mut i: usize = 0;
    while i < cs.len()
        invariant
            i <= cs@.len(),
            cs@.len() == csv.len(),
            csv == components(relative@),
            forall|k: int| 0 <= k < cs@.len() ==> #[trigger] cs@[k]@ == csv[k],
            rc@ == root@,
            i > 0 ==> cur@ == pushed_path(root@, csv, i - 1),
            views(out@) == Seq::new(i as nat, |k: int| pushed_path(root@, csv, k)),
        decreases cs.len() - i,
    {
        let next = if i == 0 {
            join_path_exec(&rc, &cs[i])
        } else {
            join_path_exec(&cur, &cs[i])
        };
        cur = next;
        let ghost before = views(out@);
        out.push(string_from_chars(&cur));
        proof {
            assert(views(out@) =~= Seq::new((i + 1) as nat, |k: int| pushed_path(root@, csv, k))) by {
                assert(views(out@) =~= before.push(cur@));
            }
        }
        i = i + 1;
    }
    Ok(out)
}

pub open spec fn regular_root_error() -> Seq<char> {
    "Selected game directory is not a regular directory."@
}

pub open spec fn symlinked_game_path_error(path: Seq<char>) -> Seq<char> {
    "Refusing to use symlinked game path "@ + path + "."@
}

pub open spec fn ancestor_error(path: Seq<char>) -> Seq<char> {
    "Game path ancestor "@ + path + " is not a directory."@
}

/// The first refusal met walking the probed prefixes from `i` on: a symlink
/// anywhere, an ancestor that is not a directory, or a failed probe.
pub open spec fn walk_error(root: Seq<char>, cs: Seq<Seq<char>>, probes: Seq<Probe>, i: int) -> Option<Seq<char>>
    decreases cs.len() - i,
{
    if i < 0 || i >= cs.len() {
        None
    } else {
        match probes[i] {
            Probe::Failed(e) => Some(e@),
            Probe::Missing => walk_error(root, cs, probes, i + 1),
            Probe::Found(k) => if k == PathKind::Symlink {
                Some(symlinked_game_path_error(pushed_path(root, cs, i)))
            } else if i < cs.len() - 1 && k != PathKind::Directory {
                Some(ancestor_error(pushed_path(root, cs, i)))
            } else {
                walk_error(root, cs, probes, i + 1)
            },
        }
    }
}

/// What `safe_game_path` answers, given what the game root is and what was
/// found at each prefix (`game_path_prefixes`).
pub open spec fn game_path_outcome(
    root: Seq<char>,
    relative: Seq<char>,
    root_kind: Result<PathKind, String>,
    probes: Seq<Probe>,
) -> Result<Seq<char>, Seq<char>> {
    match relative_path_outcome(relative) {
        Err(e) => Err(e),
        Ok(rel) => match root_kind {
            Err(e) => Err(e@),
            Ok(k) => if k != PathKind::Directory {
                Err(regular_root_error())
            } else {
                match walk_error(root, components(rel), probes, 0) {
                    Some(e) => Err(e),
                    None => Ok(join_path(root, rel)),
                }
            },
        },
    }
}

/// `safe_game_path`: places a safe relative path under the game root,
/// refusing a root that is not a real directory, any symlink on the way, and
/// an ancestor that is not a directory (a missing one is fine).
pub fn safe_game_path(root: &str, relative: &str, root_kind: &Result<PathKind, String>, probes: &[Probe]) -> (r: Result<
    String,
    String,
>)
    requires
        relative_path_outcome(relative@) is Ok ==> probes@.len() == components(relative@).len(),
    ensures
        match r {
            Ok(p) => game_path_outcome(root@, relative@, *root_kind, probes@) == Ok::<Seq<char>, Seq<char>>(p@),
            Err(e) => game_path_outcome(root@, relative@, *root_kind, probes@) == Err::<Seq<char>, Seq<char>>(e@),
        },
{
    let rel = safe_relative_path(relative)?;
    match root_kind {
        Err(e) => {
            return Err(e.clone());
        },
        Ok(PathKind::Directory) => {},
        Ok(_) => {
            return Err(owned("Selected game directory is not a regular directory."));
        },
    }
    let cs = components_exec(&chars_of(rel.as_str()));
    let ghost csv = components(relative@);
    let rc = chars_of(root);
    let mut cur: Vec<char> = Vec::new();
    let mut i: usize = 0;
    while i < cs.len()
        invariant
            i <= cs@.len(),
            cs@.len() == csv.len(),
            probes@.len() == csv.len(),
            csv == components(relative@),
            forall|k: int| 0 <= k < cs@.len() ==> #[trigger] cs@[k]@ == csv[k],
            rc@ == root@,
            i > 0 ==> cur@ == pushed_path(root@, csv, i - 1),
            *root_kind == Ok::<PathKind, String>(PathKind::Directory),
            rel@ == relative@,
            relative_path_outcome(relative@) == Ok::<Seq<char>, Seq<char>>(relative@),
            walk_error(root@, csv, probes@, 0) == walk_error(root@, csv, probes@, i as int),
        decreases cs.len() - i,
    {
        let next = if i == 0 {
            join_path_exec(&rc, &cs[i])
        } else {
            join_path_exec(&cur, &cs[i])
        };
        cur = next;
        match &probes[i] {
            Probe::Failed(e) => {
                return Err(e.clone());
            },
            Probe::Missing => {},
            Probe::Found(PathKind::Symlink) => {
                let m = concat_chars(&concat_chars(&chars_of("Refusing to use symlinked game path "), &cur), &chars_of("."));
                return Err(string_from_chars(&m));
            },
            Probe::Found(PathKind::Directory) => {},
            Probe::Found(_) => {
                if i + 1 < cs.len() {
                    let m = concat_chars(
                        &concat_chars(&chars_of("Game path ancestor "), &cur),
                        &chars_of(" is not a directory."),
                    );
                    return Err(string_from_chars(&m));
                }
            },
        }
        i = i + 1;
    }
    Ok(string_from_chars(&join_path_exec(&rc, &chars_of(rel.as_str()))))
}

// ----------------------------------------------------------------------
// Keeping a copy of the previous install
// ----------------------------------------------------------------------

/// Where a state's original-file backups lie: `<game>/.ccm-reborn/<backup_dir>`.
pub open spec fn state_backup_root_spec(root: Seq<char>, state: ManagedState) -> Result<Seq<char>, Seq<char>> {
    match backup_path_outcome(state.backup_dir@) {
        Ok(rel) => Ok(join_path(manager_root_spec(root), rel)),
        Err(e) => Err(e),
    }
}

/// The backup directory of a managed state, or why its recorded path is refused.
pub fn state_backup_root(root: &str, state: &ManagedState) -> (r: Result<String, String>)
    ensures
        match r {
            Ok(p) => state_backup_root_spec(root@, *state) == Ok::<Seq<char>, Seq<char>>(p@),
            Err(e) => state_backup_root_spec(root@, *state) == Err::<Seq<char>, Seq<char>>(e@),
        },
{
    let rel = safe_backup_path(state.backup_dir.as_str())?;
    Ok(string_from_chars(&join_path_exec(&chars_of(manager_root(root).as_str()), &chars_of(rel.as_str()))))
}

pub open spec fn missing_previous_backup_error(path: Seq<char>) -> Seq<char> {
    "Previous backup directory "@ + path + " is missing; refusing update."@
}

pub open spec fn active_file_missing_error(destination: Seq<char>) -> Seq<char> {
    "Active campaign file "@ + destination + " is missing outside CCM Reborn; refusing update."@
}

pub open spec fn active_file_changed_error(destination: Seq<char>) -> Seq<char> {
    "Active campaign file "@ + destination + " was changed outside CCM Reborn; refusing update."@
}

/// Where the staged copy of a package file goes.
pub open spec fn staged_copy_path(staging: Seq<char>, destination: Seq<char>) -> Seq<char> {
    join_path(join_path(staging, "previous-install-files"@), destination)
}

/// A staged package file as text: `(destination, staged path)`.
pub open spec fn staged_view(f: PreviousInstalledFile) -> (Seq<char>, Seq<char>) {
    (f.destination@, f.staged_path@)
}

/// The package files of the previous install to copy into staging, from file
/// `i` on, or why the update is refused. A changed file under `Mods/` is
/// copied as it stands: that cache is shared and repairable.
pub open spec fn staged_files_from(staging: Seq<char>, files: Seq<ManagedFile>, checks: Seq<GameFileCheck>, i: int) -> Result<
    Seq<(Seq<char>, Seq<char>)>,
    Seq<char>,
>
    decreases files.len() - i,
{
    if i < 0 || i >= files.len() {
        Ok(Seq::empty())
    } else {
        match files[i].installed_sha256 {
            None => staged_files_from(staging, files, checks, i + 1),
            Some(expected) => match checks[i].location {
                Err(e) => Err(e@),
                Ok(_) => if checks[i].probe != Probe::Found(PathKind::File) {
                    Err(active_file_missing_error(files[i].destination@))
                } else {
                    match checks[i].sha256 {
                        Err(e) => Err(e@),
                        Ok(a) => if a@ != expected@ && !starts_with(files[i].destination@, "Mods/"@) {
                            Err(active_file_changed_error(files[i].destination@))
                        } else {
                            match staged_files_from(staging, files, checks, i + 1) {
                                Err(e) => Err(e),
                                Ok(rest) => Ok(
                                    seq![(files[i].destination@, staged_copy_path(staging, files[i].destination@))]
                                        + rest,
                                ),
                            }
                        },
                    }
                },
            },
        }
    }
}

/// How `snapshot_previous_install` keeps the previous install.
#[derive(Debug, Clone, PartialEq, Eq)]
pub struct SnapshotPlan {
    /// Copy the backup directory into `backup_snapshot` (else create it empty).
    pub copy_backup: bool,
    pub backup_snapshot: String,
    /// The package files to copy into staging, in order.
    pub files: Vec<PreviousInstalledFile>,
}

/// Some file of the state had an original that was backed up.
pub open spec fn any_original(files: Seq<ManagedFile>) -> bool {
    exists|k: int| 0 <= k < files.len() && (#[trigger] files[k]).original_existed
}

/// The decisions of `snapshot_previous_install` for an existing state whose
/// backup directory is `backup_root`: the backup must exist when some
/// original was backed up, and every package file must still stand in the
/// game unchanged (but for the shared `Mods/` cache).
pub fn snapshot_plan(
    staging: &str,
    state: &ManagedState,
    backup_root: &str,
    backup_root_is_dir: bool,
    checks: &[GameFileCheck],
) -> (r: Result<SnapshotPlan, String>)
    requires
        checks@.len() == state.files@.len(),
    ensures
        !backup_root_is_dir && any_original(state.files@) ==> r == Err::<SnapshotPlan, String>(
            r->Err_0,
        ) && r->Err_0@ == missing_previous_backup_error(backup_root@),
        backup_root_is_dir || !any_original(state.files@) ==> match r {
            Ok(p) => staged_files_from(staging@, state.files@, checks@, 0) == Ok::<
                Seq<(Seq<char>, Seq<char>)>,
                Seq<char>,
            >(p.files@.map_values(|f: PreviousInstalledFile| staged_view(f))) && p.copy_backup == backup_root_is_dir
                && p.backup_snapshot@ == join_path(staging@, "previous-install-backup"@),
            Err(e) => staged_files_from(staging@, state.files@, checks@, 0) == Err::<
                Seq<(Seq<char>, Seq<char>)>,
                Seq<char>,
            >(e@),
        },
{
    let ghost files = state.files@;
    if !backup_root_is_dir {
        let mut k: usize = 0;
        while k < state.files.len()
            invariant
                k <= files.len(),
                files == state.files@,
                !backup_root_is_dir,
                forall|kk: int| 0 <= kk < k ==> !(#[trigger] files[kk]).original_existed,
            decreases files.len() - k,
        {
            if state.files[k].original_existed {
                proof {
                    assert(any_original(files)) by {
                        assert(files[k as int].original_existed);
                    }
                }
                let m = concat_chars(
                    &concat_chars(&chars_of("Previous backup directory "), &chars_of(backup_root)),
                    &chars_of(" is missing; refusing update."),
                );
                return Err(string_from_chars(&m));
            }
            k = k + 1;
        }
    }
    assert(backup_root_is_dir || !any_original(files));
    let sc = chars_of(staging);
    let staged_root = join_path_exec(&sc, &chars_of("previous-install-files"));
    let mut out: Vec<PreviousInstalledFile> = Vec::new();
    let mut i: usize = 0;
    while i < state.files.len()
        invariant
            i <= files.len(),
            files == state.files@,
            checks@.len() == files.len(),
            backup_root_is_dir || !any_original(files),
            staged_root@ == join_path(staging@, "previous-install-files"@),
            staged_files_from(staging@, files, checks@, 0) == match staged_files_from(staging@, files, checks@, i as int) {
                Ok(rest) => Ok::<Seq<(Seq<char>, Seq<char>)>, Seq<char>>(
                    out@.map_values(|f: PreviousInstalledFile| staged_view(f)) + rest,
                ),
                Err(e) => Err(e),
            },
        decreases files.len() - i,
    {
        let f = &state.files[i];
        let c = &checks[i];
        match &f.installed_sha256 {
            None => {},
            Some(expected) => {
                if let Err(e) = &c.location {
                    return Err(e.clone());
                }
                let is_file = match &c.probe {
                    Probe::Found(PathKind::File) => true,
                    _ => false,
                };
                if !is_file {
                    let m = concat_chars(
                        &concat_chars(&chars_of("Active campaign file "), &chars_of(f.destination.as_str())),
                        &chars_of(" is missing outside CCM Reborn; refusing update."),
                    );
                    return Err(string_from_chars(&m));
                }
                let actual = match &c.sha256 {
                    Err(e) => {
                        return Err(e.clone());
                    },
                    Ok(a) => a,
                };
                let dc = chars_of(f.destination.as_str());
                if !chars_eq(&chars_of(actual.as_str()), &chars_of(expected.as_str())) && !starts_with_exec(
                    &dc,
                    &chars_of("Mods/"),
                ) {
                    let m = concat_chars(
                        &concat_chars(&chars_of("Active campaign file "), &dc),
                        &chars_of(" was changed outside CCM Reborn; refusing update."),
                    );
                    return Err(string_from_chars(&m));
                }
                let ghost before = out@.map_values(|f: PreviousInstalledFile| staged_view(f));
                let staged = PreviousInstalledFile {
                    destination: f.destination.clone(),
                    staged_path: string_from_chars(&join_path_exec(&staged_root, &dc)),
                };
                let ghost sv = staged_view(staged);
                out.push(staged);
                proof {
                    assert(out@.map_values(|f: PreviousInstalledFile| staged_view(f)) =~= before.push(sv));
                    match staged_files_from(staging@, files, checks@, i as int + 1) {
                        Ok(rest) => {
                            assert(before + (seq![sv] + rest) =~= before.push(sv) + rest);
                        },
                        Err(_) => {},
                    }
                }
            },
        }
        i = i + 1;
    }
    proof {
        let v = out@.map_values(|f: PreviousInstalledFile| staged_view(f));
        assert(v + Seq::<(Seq<char>, Seq<char>)>::empty() =~= v);
    }
    Ok(
        SnapshotPlan {
            copy_backup: backup_root_is_dir,
            backup_snapshot: string_from_chars(&join_path_exec(&sc, &chars_of("previous-install-backup"))),
            files: out,
        },
    )
}

// ----------------------------------------------------------------------
// Putting the previous install back
// ----------------------------------------------------------------------

pub open spec fn unexpected_backup_error(path: Seq<char>) -> Seq<char> {
    "Previous backup path "@ + path + " unexpectedly exists."@
}

pub open spec fn irregular_backup_error(path: Seq<char>) -> Seq<char> {
    "Previous backup path "@ + path + " is not a regular CCM backup directory."@
}

/// What `restore_previous_install_with_backup_mode` does with a backup
/// directory already standing at `backup_root`: `Ok(true)` to remove it
/// first, `Ok(false)` when nothing stands there.
pub open spec fn previous_backup_outcome(
    backup_root: Seq<char>,
    present: bool,
    kind: Result<PathKind, String>,
    replace_existing: bool,
) -> Result<bool, Seq<char>> {
    if !present {
        Ok(false)
    } else if !replace_existing {
        Err(unexpected_backup_error(backup_root))
    } else {
        match kind {
            Err(e) => Err(e@),
            Ok(k) => if k == PathKind::Directory {
                Ok(true)
            } else {
                Err(irregular_backup_error(backup_root))
            },
        }
    }
}

/// Only a recovery after an interruption may replace an existing backup
/// directory, and only a real directory.
pub fn previous_backup_check(
    backup_root: &str,
    present: bool,
    kind: &Result<PathKind, String>,
    replace_existing: bool,
) -> (r: Result<bool, String>)
    ensures
        match r {
            Ok(b) => previous_backup_outcome(backup_root@, present, *kind, replace_existing) == Ok::<bool, Seq<char>>(b),
            Err(e) => previous_backup_outcome(backup_root@, present, *kind, replace_existing) == Err::<bool, Seq<char>>(
                e@,
            ),
        },
{
    if !present {
        return Ok(false);
    }
    if !replace_existing {
        let m = concat_chars(
            &concat_chars(&chars_of("Previous backup path "), &chars_of(backup_root)),
            &chars_of(" unexpectedly exists."),
        );
        return Err(string_from_chars(&m));
    }
    match kind {
        Err(e) => Err(e.clone()),
        Ok(PathKind::Directory) => Ok(true),
        Ok(_) => {
            let m = concat_chars(
                &concat_chars(&chars_of("Previous backup path "), &chars_of(backup_root)),
                &chars_of(" is not a regular CCM backup directory."),
            );
            Err(string_from_chars(&m))
        },
    }
}

/// The copies of staged package files back into the game, from file `i` on,
/// skipping those under the roots another branch shares, up to the first file
/// without a checked location.
pub open spec fn previous_copies_from(
    files: Seq<PreviousInstalledFile>,
    shared: Seq<Seq<char>>,
    locations: Seq<Result<String, String>>,
    i: int,
) -> (Seq<FileStepView>, Option<Seq<char>>)
    decreases files.len() - i,
{
    if i < 0 || i >= files.len() {
        (Seq::empty(), None)
    } else if under_roots(files[i].destination@, shared) {
        previous_copies_from(files, shared, locations, i + 1)
    } else {
        match locations[i] {
            Err(e) => (Seq::empty(), Some(e@)),
            Ok(dest) => {
                let rest = previous_copies_from(files, shared, locations, i + 1);
                (seq![FileStepView::Copy(files[i].staged_path@, dest@)] + rest.0, rest.1)
            },
        }
    }
}

/// The per-file part of `restore_previous_install_with_backup_mode`:
/// `locations` holds `safe_game_path` of each staged file's destination.
pub fn previous_file_copies(
    files: &[PreviousInstalledFile],
    shared_roots: &[String],
    locations: &[Result<String, String>],
) -> (r: FileRestorePlan)
    requires
        locations@.len() == files@.len(),
    ensures
        r.steps@.map_values(|s: FileStep| s@) == previous_copies_from(files@, views(shared_roots@), locations@, 0).0,
        match r.error {
            Some(e) => previous_copies_from(files@, views(shared_roots@), locations@, 0).1 == Some(e@),
            None => previous_copies_from(files@, views(shared_roots@), locations@, 0).1 is None,
        },
{
    let ghost shared = views(shared_roots@);
    let ghost whole = previous_copies_from(files@, shared, locations@, 0);
    let mut steps: Vec<FileStep> = Vec::new();
    let mut i: usize = 0;
    while i < files.len()
        invariant
            i <= files@.len(),
            shared == views(shared_roots@),
            locations@.len() == files@.len(),
            whole == previous_copies_from(files@, shared, locations@, 0),
            whole.0 == steps@.map_values(|s: FileStep| s@) + previous_copies_from(files@, shared, locations@, i as int).0,
            whole.1 == previous_copies_from(files@, shared, locations@, i as int).1,
        decreases files.len() - i,
    {
        if !destination_is_under_roots(files[i].destination.as_str(), shared_roots) {
            let ghost before = steps@.map_values(|s: FileStep| s@);
            match &locations[i] {
                Err(e) => {
                    proof {
                        assert(before + Seq::<FileStepView>::empty() =~= before);
                    }
                    return FileRestorePlan { steps, error: Some(e.clone()) };
                },
                Ok(dest) => {
                    let s = FileStep::Copy { from: files[i].staged_path.clone(), to: dest.clone() };
                    let ghost sv = s@;
                    steps.push(s);
                    proof {
                        let rest = previous_copies_from(files@, shared, locations@, i as int + 1);
                        assert(steps@.map_values(|s: FileStep| s@) =~= before.push(sv));
                        assert(before + (seq![sv] + rest.0) =~= before.push(sv) + rest.0);
                    }
                },
            }
        }
        i = i + 1;
    }
    proof {
        assert(steps@.map_values(|s: FileStep| s@) + Seq::<FileStepView>::empty() =~= steps@.map_values(|s: FileStep| s@));
    }
    FileRestorePlan { steps, error: None }
}

/// After a restore attempt, the switch to the vanilla profile stands only
/// when the restore went through with no conflict; otherwise it is rolled back.
pub fn keep_profile_switch(result: &Result<RestoreResult, String>) -> (r: bool)
    ensures
        r == (result is Ok && result->Ok_0.conflicts@.len() == 0),
{
    match result {
        Ok(restored) => restored.conflicts.len() == 0,
        Err(_) => false,
    }
}

// ----------------------------------------------------------------------
// Clearing a campaign branch
// ----------------------------------------------------------------------

/// What clearing the Wings of Liberty branch does with one entry of `Maps/Campaign`.
#[derive(Debug, Clone, Copy, PartialEq, Eq)]
pub enum ClearAction {
    RemoveDirectory,
    RemoveFile,
    Keep,
}

pub open spec fn symlink_clear_error(path: Seq<char>) -> Seq<char> {
    "Refusing to clear symlink "@ + path + "."@
}

/// A symlink is refused; a directory is removed only when it is one of the
/// asset directories a WoL campaign owns; every file is removed; anything
/// else (the other campaigns' branches among them) is kept.
pub open spec fn clear_entry_outcome(path: Seq<char>, name: Seq<char>, kind: PathKind) -> Result<ClearAction, Seq<char>> {
    if kind == PathKind::Symlink {
        Err(symlink_clear_error(path))
    } else if kind == PathKind::Directory && is_wol_owned_asset_directory(name) {
        Ok(ClearAction::RemoveDirectory)
    } else if kind == PathKind::File {
        Ok(ClearAction::RemoveFile)
    } else {
        Ok(ClearAction::Keep)
    }
}

/// The per-entry decision of `clear_campaign_target` for `Maps/Campaign`.
pub fn clear_entry_action(path: &str, name: &str, kind: PathKind) -> (r: Result<ClearAction, String>)
    ensures
        match r {
            Ok(a) => clear_entry_outcome(path@, name@, kind) == Ok::<ClearAction, Seq<char>>(a),
            Err(e) => clear_entry_outcome(path@, name@, kind) == Err::<ClearAction, Seq<char>>(e@),
        },
{
    match kind {
        PathKind::Symlink => {
            let m = concat_chars(&concat_chars(&chars_of("Refusing to clear symlink "), &chars_of(path)), &chars_of("."));
            Err(string_from_chars(&m))
        },
        PathKind::Directory => if is_wol_owned_asset_directory_exec(&chars_of(name)) {
            Ok(ClearAction::RemoveDirectory)
        } else {
            Ok(ClearAction::Keep)
        },
        PathKind::File => Ok(ClearAction::RemoveFile),
        PathKind::Other => Ok(ClearAction::Keep),
    }
}

pub open spec fn not_a_directory_error(path: Seq<char>) -> Seq<char> {
    "Campaign target "@ + path + " is not a directory."@
}

/// Before a campaign directory is cleared: something that is not a directory
/// stands in its place (`present` and `is_dir` as `Path::exists` and `Path::is_dir` report them).
pub fn campaign_directory_check(path: &str, present: bool, is_dir: bool) -> (r: Result<(), String>)
    ensures
        (r is Ok) <==> (!present || is_dir),
        r matches Err(e) ==> e@ == not_a_directory_error(path@),
{
    if present && !is_dir {
        let m = concat_chars(&concat_chars(&chars_of("Campaign target "), &chars_of(path)), &chars_of(" is not a directory."));
        return Err(string_from_chars(&m));
    }
    Ok(())
}

/// A restore never clears a dependency root that a state for another branch
/// still installs into: each root left to clear once the shared roots (and
/// any restored from a baseline) are set aside is used by no other branch,
/// whatever the case of its name there.
pub proof fn lemma_restore_spares_shared_roots(
    state: ManagedState,
    states: Seq<ManagedState>,
    shared: Seq<Seq<char>>,
    baseline: Seq<Seq<char>>,
    root: Seq<char>,
)
    requires
        shared.to_set() == shared_roots_spec(state, states),
        roots_outside_spec(state, shared, baseline).contains(root),
    ensures
        state_roots(state).contains(root),
        !root_used_elsewhere(root, state_target(state), states),
{
    if root_used_elsewhere(root, state_target(state), states) {
        assert(shared_roots_spec(state, states).contains(root));
        assert(shared.to_set().contains(root));
        assert(shared.contains(root));
    }
}

/// The regular files of a directory tree, by path, after one file step: a
/// copy writes the source's content to the destination; a removal deletes
/// the file.
pub open spec fn apply_file_step(fs: Map<Seq<char>, Seq<u8>>, s: FileStepView) -> Map<Seq<char>, Seq<u8>> {
    match s {
        FileStepView::Copy(from, to) => fs.insert(to, fs[from]),
        FileStepView::RemoveIfFile(path) => fs.remove(path),
    }
}

/// The files after a list of steps, taken in order.
pub open spec fn apply_file_steps(fs: Map<Seq<char>, Seq<u8>>, steps: Seq<FileStepView>) -> Map<Seq<char>, Seq<u8>>
    decreases steps.len(),
{
    if steps.len() == 0 {
        fs
    } else {
        apply_file_steps(apply_file_step(fs, steps[0]), steps.drop_first())
    }
}

/// The checked game location of managed file `k`.
pub open spec fn checked_location(checks: Seq<GameFileCheck>, k: int) -> Seq<char> {
    checks[k].location->Ok_0@
}

/// Where managed file `k`'s backup lies.
pub open spec fn backup_location(root: Seq<char>, files: Seq<ManagedFile>, k: int) -> Seq<char> {
    join_path(manager_root_spec(root), backup_path_outcome(files[k].backup_path->0@)->Ok_0)
}

/// What an install recorded of the files before it, from file `from` on:
/// each file has a checked location, the locations differ; a file whose
/// original existed has a usable backup holding that original, and no backup
/// lies at a managed location; a file without an original had nothing there.
pub open spec fn install_recorded(
    root: Seq<char>,
    files: Seq<ManagedFile>,
    checks: Seq<GameFileCheck>,
    before: Map<Seq<char>, Seq<u8>>,
    fs: Map<Seq<char>, Seq<u8>>,
    from: int,
) -> bool {
    &&& files.len() == checks.len()
    &&& forall|k: int| from <= k < files.len() ==> (#[trigger] checks[k]).location is Ok
    &&& forall|a: int, b: int| from <= a < b < files.len() ==> #[trigger] checked_location(checks, a) != #[trigger] checked_location(checks, b)
    &&& forall|k: int| from <= k < files.len() ==> ((#[trigger] files[k]).original_existed
        <==> before.dom().contains(checked_location(checks, k)))
    &&& forall|k: int| from <= k < files.len() && (#[trigger] files[k]).original_existed ==> {
        &&& files[k].backup_path is Some
        &&& backup_path_outcome(files[k].backup_path->0@) is Ok
        &&& checks[k].backup_is_file
        &&& fs.dom().contains(backup_location(root, files, k))
        &&& fs[backup_location(root, files, k)] == before[checked_location(checks, k)]
    }
    &&& forall|k: int, j: int| from <= k < files.len() && from <= j < files.len() && (#[trigger] files[k]).original_existed
        ==> backup_location(root, files, k) != #[trigger] checked_location(checks, j)
}

proof fn lemma_restore_steps_from(
    root: Seq<char>,
    files: Seq<ManagedFile>,
    checks: Seq<GameFileCheck>,
    i: int,
    fs: Map<Seq<char>, Seq<u8>>,
    before: Map<Seq<char>, Seq<u8>>,
)
    requires
        0 <= i <= files.len(),
        install_recorded(root, files, checks, before, fs, i),
    ensures
        steps_from(root, files, Seq::empty(), Seq::empty(), checks, i).1 is None,
        ({
            let out = apply_file_steps(fs, steps_from(root, files, Seq::empty(), Seq::empty(), checks, i).0);
            &&& forall|k: int| i <= k < files.len() ==> {
                &&& out.dom().contains(#[trigger] checked_location(checks, k)) == before.dom().contains(checked_location(checks, k))
                &&& before.dom().contains(checked_location(checks, k)) ==> out[checked_location(checks, k)]
                    == before[checked_location(checks, k)]
            }
            &&& forall|p: Seq<char>| (forall|k: int| i <= k < files.len() ==> #[trigger] checked_location(checks, k) != p) ==> {
                &&& #[trigger] out.dom().contains(p) == fs.dom().contains(p)
                &&& fs.dom().contains(p) ==> out[p] == fs[p]
            }
        }),
    decreases files.len() - i,
{
    let empty: Seq<Seq<char>> = Seq::empty();
    if i < files.len() {
        let f = files[i];
        let dest = checked_location(checks, i);
        assert(!under_roots(f.destination@, empty));
        let step = file_step(root, f, checks[i]);
        let fs2 = if f.original_existed {
            fs.insert(dest, fs[backup_location(root, files, i)])
        } else {
            fs.remove(dest)
        };
        assert(step is Ok);
        assert(apply_file_step(fs, step->Ok_0) == fs2);
        assert forall|p: Seq<char>| p != dest implies #[trigger] fs2.dom().contains(p) == fs.dom().contains(p)
            && (fs.dom().contains(p) ==> fs2[p] == fs[p]) by {}
        assert(install_recorded(root, files, checks, before, fs2, i + 1)) by {
            assert forall|k: int| i + 1 <= k < files.len() && (#[trigger] files[k]).original_existed implies {
                &&& fs2.dom().contains(backup_location(root, files, k))
                &&& fs2[backup_location(root, files, k)] == before[checked_location(checks, k)]
            } by {
                assert(backup_location(root, files, k) != checked_location(checks, i));
            }
        }
        lemma_restore_steps_from(root, files, checks, i + 1, fs2, before);
        let rest = steps_from(root, files, empty, empty, checks, i + 1);
        assert((seq![step->Ok_0] + rest.0).drop_first() =~= rest.0);
        let out = apply_file_steps(fs2, rest.0);
        assert forall|k: int| i <= k < files.len() implies {
            &&& out.dom().contains(#[trigger] checked_location(checks, k)) == before.dom().contains(checked_location(checks, k))
            &&& before.dom().contains(checked_location(checks, k)) ==> out[checked_location(checks, k)]
                == before[checked_location(checks, k)]
        } by {
            if k == i {
                assert(forall|j: int| i + 1 <= j < files.len() ==> #[trigger] checked_location(checks, j) != dest);
            }
        }
        assert forall|p: Seq<char>| (forall|k: int| i <= k < files.len() ==> #[trigger] checked_location(checks, k) != p) implies {
            &&& #[trigger] out.dom().contains(p) == fs.dom().contains(p)
            &&& fs.dom().contains(p) ==> out[p] == fs[p]
        } by {
            assert(checked_location(checks, i) != p);
            assert(forall|k: int| i + 1 <= k < files.len() ==> #[trigger] checked_location(checks, k) != p);
        }
    }
}

/// Restoring a branch undoes its install: every file the install recorded
/// is put back as it stood before, its original copied back from the backup
/// or, where there was none, the package's file removed; every other path
/// is left as it is. (This is the restore with no roots shared with another
/// branch or restored from a shared baseline.)
pub proof fn lemma_restore_undoes_install(
    root: Seq<char>,
    files: Seq<ManagedFile>,
    checks: Seq<GameFileCheck>,
    before: Map<Seq<char>, Seq<u8>>,
    installed: Map<Seq<char>, Seq<u8>>,
)
    requires
        install_recorded(root, files, checks, before, installed, 0),
    ensures
        ({
            let (steps, refusal) = steps_from(root, files, Seq::empty(), Seq::empty(), checks, 0);
            let out = apply_file_steps(installed, steps);
            &&& refusal is None
            &&& forall|k: int| 0 <= k < files.len() ==> {
                &&& out.dom().contains(#[trigger] checked_location(checks, k)) == before.dom().contains(checked_location(checks, k))
                &&& before.dom().contains(checked_location(checks, k)) ==> out[checked_location(checks, k)]
                    == before[checked_location(checks, k)]
            }
            &&& forall|p: Seq<char>| (forall|k: int| 0 <= k < files.len() ==> #[trigger] checked_location(checks, k) != p) ==> {
                &&& #[trigger] out.dom().contains(p) == installed.dom().contains(p)
                &&& installed.dom().contains(p) ==> out[p] == installed[p]
            }
        }),
{
    lemma_restore_steps_from(root, files, checks, 0, installed, before);
}

proof fn lemma_conflicts_from_lists(
    files: Seq<ManagedFile>,
    shared: Seq<Seq<char>>,
    checks: Seq<GameFileCheck>,
    i: int,
    k: int,
)
    requires
        0 <= i <= k < files.len(),
        checks.len() == files.len(),
        forall|j: int| i <= j < files.len() ==> (#[trigger] checks[j]).location is Ok,
        !under_roots(files[k].destination@, shared),
        is_conflict(files[k], checks[k]),
    ensures
        conflicts_from(files, shared, checks, i) is Ok,
        conflicts_from(files, shared, checks, i)->Ok_0.contains(files[k].destination@),
    decreases k - i,
{
    if i < k {
        lemma_conflicts_from_lists(files, shared, checks, i + 1, k);
        let rest = conflicts_from(files, shared, checks, i + 1)->Ok_0;
        let j = choose|j: int| 0 <= j < rest.len() && rest[j] == files[k].destination@;
        if !under_roots(files[i].destination@, shared) && is_conflict(files[i], checks[i]) {
            assert((seq![files[i].destination@] + rest)[j + 1] == files[k].destination@);
        }
    } else {
        lemma_conflicts_from_no_error(files, shared, checks, i + 1);
        assert((seq![files[k].destination@] + conflicts_from(files, shared, checks, i + 1)->Ok_0)[0]
            == files[k].destination@);
    }
}

proof fn lemma_conflicts_from_no_error(files: Seq<ManagedFile>, shared: Seq<Seq<char>>, checks: Seq<GameFileCheck>, i: int)
    requires
        0 <= i <= files.len(),
        checks.len() == files.len(),
        forall|j: int| i <= j < files.len() ==> (#[trigger] checks[j]).location is Ok,
    ensures
        conflicts_from(files, shared, checks, i) is Ok,
    decreases files.len() - i,
{
    if i < files.len() {
        lemma_conflicts_from_no_error(files, shared, checks, i + 1);
    }
}

/// An update does not go past a file changed outside CCM: a managed file
/// (outside the roots other branches share) whose game copy is gone or no
/// longer has the hash CCM recorded is among the restore's conflicts.
pub proof fn lemma_drifted_file_is_a_conflict(
    files: Seq<ManagedFile>,
    shared: Seq<Seq<char>>,
    checks: Seq<GameFileCheck>,
    k: int,
)
    requires
        0 <= k < files.len(),
        checks.len() == files.len(),
        forall|j: int| 0 <= j < files.len() ==> (#[trigger] checks[j]).location is Ok,
        !under_roots(files[k].destination@, shared),
        is_conflict(files[k], checks[k]),
    ensures
        conflicts_from(files, shared, checks, 0) is Ok,
        conflicts_from(files, shared, checks, 0)->Ok_0.contains(files[k].destination@),
{
    lemma_conflicts_from_lists(files, shared, checks, 0, k);
}


/// Drift is judged against what CCM installed: a managed file with an
/// installed hash whose game copy is a regular file with that hash is never
/// a conflict, whatever its backup's hash; with another hash, or gone, it is.
/// Only a file CCM installed nothing over is judged by its backup's hash.
pub proof fn lemma_conflict_is_judged_by_the_installed_hash(f: ManagedFile, c: GameFileCheck)
    ensures
        f.installed_sha256 is Some && c.probe == Probe::Found(PathKind::File) && c.sha256 is Ok && c.sha256->Ok_0@
            == f.installed_sha256->0@ ==> !is_conflict(f, c),
        f.installed_sha256 is Some && c.probe == Probe::Found(PathKind::File) && c.sha256 is Ok && c.sha256->Ok_0@
            != f.installed_sha256->0@ ==> is_conflict(f, c),
        f.installed_sha256 is Some && c.probe != Probe::Found(PathKind::File) ==> is_conflict(f, c),
        f.installed_sha256 is None && c.probe == Probe::Found(PathKind::File) && c.backup_sha256 is Some && c.sha256 is Ok
            ==> (is_conflict(f, c) <==> c.sha256->Ok_0@ != c.backup_sha256->0@),
{
}

} // verus!
