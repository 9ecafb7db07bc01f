//! Carrying out a profile switch: the checks on the profile and its store,
//! the rollback copy taken before anything changes, and undoing it.

use vstd::prelude::*;
use crate::campaign_profile::{bank_path, campaign_slot_bank_paths, relative_profile_path, relative_under, CampaignProfileSpec};
use crate::journal::{PathKind, ProfileBackupEntry, ProfileTransaction};
use crate::paths::{is_campaign_target, is_campaign_target_exec, join_path, join_path_exec};
use crate::restore::{apply_file_steps, FileRestorePlan, FileStep, FileStepView};
use crate::text::{chars_eq, chars_of, concat_chars, decimal, decimal_exec, owned, string_from_chars, views};

verus! {

/// What `Path::exists` and `symlink_metadata` say of a path.
#[derive(Debug, PartialEq, Eq)]
pub struct PathCheck {
    pub present: bool,
    pub kind: Result<PathKind, String>,
}

// ----------------------------------------------------------------------
// The profile and its store
// ----------------------------------------------------------------------

/// What the switch checks of a profile directory and of the store that keeps
/// its per-campaign snapshots.
#[derive(Debug, PartialEq, Eq)]
pub struct ProfileRootsCheck {
    /// `symlink_metadata` of the profile directory.
    pub profile: Result<PathKind, String>,
    pub profile_banks: PathCheck,
    pub profile_saves: PathCheck,
    pub store: PathCheck,
    pub store_banks: PathCheck,
    pub store_saves: PathCheck,
}

pub open spec fn irregular_profile_error() -> Seq<char> {
    "Selected StarCraft II profile must be a regular directory."@
}

pub open spec fn profile_child_error(name: Seq<char>) -> Seq<char> {
    "Selected profile "@ + name + " directory must not be a symlink."@
}

pub open spec fn irregular_store_error() -> Seq<char> {
    "CCM profile-store directory must be a regular directory, not a symlink."@
}

pub open spec fn store_child_error(name: Seq<char>) -> Seq<char> {
    "CCM profile-store "@ + name + " directory must not be a symlink."@
}

/// A `Banks` or `Saves` directory of the profile, when present, must be a
/// real directory.
pub open spec fn profile_child_outcome(name: Seq<char>, c: PathCheck) -> Option<Seq<char>> {
    if !c.present {
        None
    } else {
        match c.kind {
            Err(e) => Some(e@),
            Ok(k) => if k != PathKind::Directory {
                Some(profile_child_error(name))
            } else {
                None
            },
        }
    }
}

/// A `Banks` or `Saves` directory of the store, when present, must not be a symlink.
pub open spec fn store_child_outcome(name: Seq<char>, c: PathCheck) -> Option<Seq<char>> {
    if !c.present {
        None
    } else {
        match c.kind {
            Err(e) => Some(e@),
            Ok(k) => if k == PathKind::Symlink {
                Some(store_child_error(name))
            } else {
                None
            },
        }
    }
}

/// The first refusal of `validate_profile_switch_roots`, if any.
pub open spec fn roots_refusal(c: ProfileRootsCheck) -> Option<Seq<char>> {
    match c.profile {
        Err(e) => Some(e@),
        Ok(k) => if k != PathKind::Directory {
            Some(irregular_profile_error())
        } else if profile_child_outcome("Banks"@, c.profile_banks) is Some {
            profile_child_outcome("Banks"@, c.profile_banks)
        } else if profile_child_outcome("Saves"@, c.profile_saves) is Some {
            profile_child_outcome("Saves"@, c.profile_saves)
        } else if !c.store.present {
            None
        } else {
            match c.store.kind {
                Err(e) => Some(e@),
                Ok(sk) => if sk != PathKind::Directory {
                    Some(irregular_store_error())
                } else if store_child_outcome("Banks"@, c.store_banks) is Some {
                    store_child_outcome("Banks"@, c.store_banks)
                } else {
                    store_child_outcome("Saves"@, c.store_saves)
                },
            }
        },
    }
}

fn profile_child_check(name: &str, c: &PathCheck) -> (r: Option<String>)
    ensures
        match r {
            Some(e) => profile_child_outcome(name@, *c) == Some(e@),
            None => profile_child_outcome(name@, *c) is None,
        },
{
    if !c.present {
        return None;
    }
    match &c.kind {
        Err(e) => Some(e.clone()),
        Ok(PathKind::Directory) => None,
        Ok(_) => {
            let m = concat_chars(
                &concat_chars(&chars_of("Selected profile "), &chars_of(name)),
                &chars_of(" directory must not be a symlink."),
            );
            Some(string_from_chars(&m))
        },
    }
}

fn store_child_check(name: &str, c: &PathCheck) -> (r: Option<String>)
    ensures
        match r {
            Some(e) => store_child_outcome(name@, *c) == Some(e@),
            None => store_child_outcome(name@, *c) is None,
        },
{
    if !c.present {
        return None;
    }
    match &c.kind {
        Err(e) => Some(e.clone()),
        Ok(PathKind::Symlink) => {
            let m = concat_chars(
                &concat_chars(&chars_of("CCM profile-store "), &chars_of(name)),
                &chars_of(" directory must not be a symlink."),
            );
            Some(string_from_chars(&m))
        },
        Ok(_) => None,
    }
}

/// `validate_profile_switch_roots`: the profile is a real directory whose
/// `Banks` and `Saves` are real directories; an existing store is a real
/// directory whose `Banks` and `Saves` are not symlinks.
pub fn validate_profile_switch_roots(check: &ProfileRootsCheck) -> (r: Result<(), String>)
    ensures
        match r {
            Ok(()) => roots_refusal(*check) is None,
            Err(e) => roots_refusal(*check) == Some(e@),
        },
{
    match &check.profile {
        Err(e) => {
            return Err(e.clone());
        },
        Ok(PathKind::Directory) => {},
        Ok(_) => {
            return Err(owned("Selected StarCraft II profile must be a regular directory."));
        },
    }
    if let Some(e) = profile_child_check("Banks", &check.profile_banks) {
        return Err(e);
    }
    if let Some(e) = profile_child_check("Saves", &check.profile_saves) {
        return Err(e);
    }
    if !check.store.present {
        return Ok(());
    }
    match &check.store.kind {
        Err(e) => {
            return Err(e.clone());
        },
        Ok(PathKind::Directory) => {},
        Ok(_) => {
            return Err(owned("CCM profile-store directory must be a regular directory, not a symlink."));
        },
    }
    if let Some(e) = store_child_check("Banks", &check.store_banks) {
        return Err(e);
    }
    if let Some(e) = store_child_check("Saves", &check.store_saves) {
        return Err(e);
    }
    Ok(())
}

pub open spec fn store_component_error(path: Seq<char>) -> Seq<char> {
    "CCM profile-store component "@ + path + " must be a regular directory."@
}

/// The first refusal of `validate_profile_store_chain` from component `i`
/// on: an existing component that is not a real directory.
pub open spec fn chain_refusal(paths: Seq<Seq<char>>, checks: Seq<PathCheck>, i: int) -> Option<Seq<char>>
    decreases paths.len() - i,
{
    if i < 0 || i >= paths.len() {
        None
    } else if !checks[i].present {
        chain_refusal(paths, checks, i + 1)
    } else {
        match checks[i].kind {
            Err(e) => Some(e@),
            Ok(k) => if k != PathKind::Directory {
                Some(store_component_error(paths[i]))
            } else {
                chain_refusal(paths, checks, i + 1)
            },
        }
    }
}

/// The directories from the user's home down to a profile store:
/// `.ccm-reborn`, `profiles`, then each of `suffix`.
pub open spec fn chain_paths_from(home: Seq<char>, names: Seq<Seq<char>>, i: int) -> Seq<char>
    decreases i,
{
    if i <= 0 {
        join_path(home, names[0])
    } else {
        join_path(chain_paths_from(home, names, i - 1), names[i])
    }
}

pub open spec fn chain_names(suffix: Seq<Seq<char>>) -> Seq<Seq<char>> {
    seq![".ccm-reborn"@, "profiles"@] + suffix
}

/// The paths `validate_profile_store_chain` checks under `home`.
pub fn profile_store_chain(home: &str, suffix: &[String]) -> (r: Vec<String>)
    ensures
        views(r@) == Seq::new(
            chain_names(views(suffix@)).len(),
            |i: int| chain_paths_from(home@, chain_names(views(suffix@)), i),
        ),
{
    let ghost names = chain_names(views(suffix@));
    let mut all: Vec<Vec<char>> = Vec::new();
    all.push(chars_of(".ccm-reborn"));
    all.push(chars_of("profiles"));
    let mut k: usize = 0;
    while k < suffix.len()
        invariant
            k <= suffix@.len(),
            all@.len() == 2 + k,
            forall|j: int| 0 <= j < 2 + k ==> #[trigger] all@[j]@ == names[j],
            names == chain_names(views(suffix@)),
        decreases suffix.len() - k,
    {
        all.push(chars_of(suffix[k].as_str()));
        k = k + 1;
    }
    let hc = chars_of(home);
    let mut cur: Vec<char> = Vec::new();
    let mut out: Vec<String> = Vec::new();
    let mut i: usize = 0;
    while i < all.len()
        invariant
            i <= all@.len(),
            all@.len() == names.len(),
            forall|j: int| 0 <= j < all@.len() ==> #[trigger] all@[j]@ == names[j],
            hc@ == home@,
            i > 0 ==> cur@ == chain_paths_from(home@, names, i - 1),
            views(out@) == Seq::new(i as nat, |j: int| chain_paths_from(home@, names, j)),
        decreases all.len() - i,
    {
        let next = if i == 0 {
            join_path_exec(&hc, &all[i])
        } else {
            join_path_exec(&cur, &all[i])
        };
        cur = next;
        let ghost before = views(out@);
        out.push(string_from_chars(&cur));
        proof {
            assert(views(out@) =~= Seq::new((i + 1) as nat, |j: int| chain_paths_from(home@, names, j))) by {
                assert(views(out@) =~= before.push(cur@));
            }
        }
        i = i + 1;
    }
    out
}

/// `validate_profile_store_chain` on the chain's paths and what stands at each.
pub fn validate_profile_store_chain(paths: &[String], checks: &[PathCheck]) -> (r: Result<(), String>)
    requires
        checks@.len() == paths@.len(),
    ensures
        match r {
            Ok(()) => chain_refusal(views(paths@), checks@, 0) is None,
            Err(e) => chain_refusal(views(paths@), checks@, 0) == Some(e@),
        },
{
    let mut i: usize = 0;
    while i < paths.len()
        invariant
            i <= paths@.len(),
            checks@.len() == paths@.len(),
            chain_refusal(views(paths@), checks@, 0) == chain_refusal(views(paths@), checks@, i as int),
        decreases paths.len() - i,
    {
        if checks[i].present {
            match &checks[i].kind {
                Err(e) => {
                    return Err(e.clone());
                },
                Ok(PathKind::Directory) => {},
                Ok(_) => {
                    proof {
                        assert(views(paths@)[i as int] == paths@[i as int]@);
                    }
                    let m = concat_chars(
                        &concat_chars(&chars_of("CCM profile-store component "), &chars_of(paths[i].as_str())),
                        &chars_of(" must be a regular directory."),
                    );
                    return Err(string_from_chars(&m));
                },
            }
        }
        i = i + 1;
    }
    Ok(())
}

// ----------------------------------------------------------------------
// Single profile files
// ----------------------------------------------------------------------

pub open spec fn symlinked_removal_error(path: Seq<char>) -> Seq<char> {
    "Refusing to remove symlinked profile file "@ + path + "."@
}

pub open spec fn not_regular_error(path: Seq<char>) -> Seq<char> {
    "Profile path "@ + path + " is not a regular file."@
}

/// `remove_profile_file`: `Ok(true)` to remove a regular file, `Ok(false)`
/// when nothing is there; a symlink or anything else is refused.
pub open spec fn removal_outcome(path: Seq<char>, c: PathCheck) -> Result<bool, Seq<char>> {
    if !c.present {
        Ok(false)
    } else {
        match c.kind {
            Err(e) => Err(e@),
            Ok(k) => if k == PathKind::Symlink {
                Err(symlinked_removal_error(path))
            } else if k != PathKind::File {
                Err(not_regular_error(path))
            } else {
                Ok(true)
            },
        }
    }
}

pub fn profile_file_removal(path: &str, check: &PathCheck) -> (r: Result<bool, String>)
    ensures
        match r {
            Ok(b) => removal_outcome(path@, *check) == Ok::<bool, Seq<char>>(b),
            Err(e) => removal_outcome(path@, *check) == Err::<bool, Seq<char>>(e@),
        },
{
    if !check.present {
        return Ok(false);
    }
    match &check.kind {
        Err(e) => Err(e.clone()),
        Ok(PathKind::Symlink) => {
            let m = concat_chars(
                &concat_chars(&chars_of("Refusing to remove symlinked profile file "), &chars_of(path)),
                &chars_of("."),
            );
            Err(string_from_chars(&m))
        },
        Ok(PathKind::File) => Ok(true),
        Ok(_) => {
            let m = concat_chars(&concat_chars(&chars_of("Profile path "), &chars_of(path)), &chars_of(" is not a regular file."));
            Err(string_from_chars(&m))
        },
    }
}

pub open spec fn irregular_replace_error(path: Seq<char>) -> Seq<char> {
    "Refusing to replace non-regular profile file "@ + path + "."@
}

/// `write_text_atomic` only replaces a regular file (or writes a new one).
pub open spec fn write_outcome(path: Seq<char>, c: PathCheck) -> Result<(), Seq<char>> {
    if !c.present {
        Ok(())
    } else {
        match c.kind {
            Err(e) => Err(e@),
            Ok(k) => if k != PathKind::File {
                Err(irregular_replace_error(path))
            } else {
                Ok(())
            },
        }
    }
}

pub fn profile_write_check(path: &str, check: &PathCheck) -> (r: Result<(), String>)
    ensures
        match r {
            Ok(()) => write_outcome(path@, *check) is Ok,
            Err(e) => write_outcome(path@, *check) == Err::<(), Seq<char>>(e@),
        },
{
    if !check.present {
        return Ok(());
    }
    match &check.kind {
        Err(e) => Err(e.clone()),
        Ok(PathKind::File) => Ok(()),
        Ok(_) => {
            let m = concat_chars(
                &concat_chars(&chars_of("Refusing to replace non-regular profile file "), &chars_of(path)),
                &chars_of("."),
            );
            Err(string_from_chars(&m))
        },
    }
}

/// The error of a failed switch, with the rollback's own failure if it had one.
pub open spec fn failure_text(error: Seq<char>, rollback_error: Option<Seq<char>>) -> Seq<char> {
    match rollback_error {
        Some(r) => error + "; profile rollback also failed: "@ + r,
        None => error,
    }
}

pub fn profile_failure_message(error: &str, rollback_error: &Option<String>) -> (r: String)
    ensures
        r@ == failure_text(
            error@,
            match rollback_error {
                Some(x) => Some(x@),
                None => None,
            },
        ),
{
    match rollback_error {
        Some(x) => string_from_chars(
            &concat_chars(
                &concat_chars(&chars_of(error), &chars_of("; profile rollback also failed: ")),
                &chars_of(x.as_str()),
            ),
        ),
        None => owned(error),
    }
}

// ----------------------------------------------------------------------
// The rollback copy
// ----------------------------------------------------------------------

/// `format!("{:08}", n)`.
pub open spec fn zero_padded(n: nat) -> Seq<char> {
    if decimal(n).len() >= 8 {
        decimal(n)
    } else {
        Seq::new((8 - decimal(n).len()) as nat, |i: int| '0') + decimal(n)
    }
}

fn zero_padded_exec(n: u64) -> (r: Vec<char>)
    ensures
        r@ == zero_padded(n as nat),
{
    let d = decimal_exec(n);
    if d.len() >= 8 {
        return d;
    }
    let mut r: Vec<char> = Vec::new();
    let mut i: usize = 0;
    while i < 8 - d.len()
        invariant
            d@ == decimal(n as nat),
            d@.len() < 8,
            i <= 8 - d@.len(),
            r@ == Seq::new(i as nat, |j: int| '0'),
        decreases 8 - d.len() - i,
    {
        r.push('0');
        proof {
            assert(r@ =~= Seq::new((i + 1) as nat, |j: int| '0'));
        }
        i = i + 1;
    }
    concat_chars(&r, &d)
}

pub open spec fn symlinked_capture_error(path: Seq<char>) -> Seq<char> {
    "Refusing to modify symlinked profile path "@ + path + "."@
}

/// An entry of a transaction as text.
pub open spec fn entry_view(e: ProfileBackupEntry) -> (Seq<char>, Option<Seq<char>>) {
    (
        e.path@,
        match e.backup {
            Some(b) => Some(b@),
            None => None,
        },
    )
}

/// The entries `ProfileTransaction::capture` records from path `i` on, given
/// the paths already `seen`: each distinct path once, in order, with a
/// numbered copy (`00000000`, `00000001`, ...) of every regular file, and
/// none of a missing one; a symlink or anything else stops the capture.
pub open spec fn capture_from(
    paths: Seq<Seq<char>>,
    checks: Seq<PathCheck>,
    backup_root: Seq<char>,
    i: int,
    seen: Seq<Seq<char>>,
) -> Result<Seq<(Seq<char>, Option<Seq<char>>)>, Seq<char>>
    decreases paths.len() - i,
{
    if i < 0 || i >= paths.len() {
        Ok(Seq::empty())
    } else if seen.contains(paths[i]) {
        capture_from(paths, checks, backup_root, i + 1, seen)
    } else {
        let entry: Result<Option<Seq<char>>, Seq<char>> = if !checks[i].present {
            Ok(None)
        } else {
            match checks[i].kind {
                Err(e) => Err(e@),
                Ok(k) => if k == PathKind::Symlink {
                    Err(symlinked_capture_error(paths[i]))
                } else if k != PathKind::File {
                    Err(not_regular_error(paths[i]))
                } else {
                    Ok(Some(join_path(backup_root, zero_padded(seen.len()))))
                },
            }
        };
        match entry {
            Err(e) => Err(e),
            Ok(b) => match capture_from(paths, checks, backup_root, i + 1, seen.push(paths[i])) {
                Err(e) => Err(e),
                Ok(rest) => Ok(seq![(paths[i], b)] + rest),
            },
        }
    }
}

/// The directory of the rollback copies: `<staging>/profile-rollback`.
pub open spec fn rollback_root_spec(staging: Seq<char>) -> Seq<char> {
    join_path(staging, "profile-rollback"@)
}

fn seen_before(paths: &[String], upto: usize, p: &[char]) -> (r: bool)
    requires
        upto <= paths@.len(),
    ensures
        r == views(paths@).take(upto as int).contains(p@),
{
    let mut i: usize = 0;
    while i < upto
        invariant
            i <= upto,
            upto <= paths@.len(),
            forall|k: int| 0 <= k < i ==> #[trigger] views(paths@)[k] != p@,
        decreases upto - i,
    {
        if chars_eq(&chars_of(paths[i].as_str()), p) {
            proof {
                assert(views(paths@).take(upto as int)[i as int] == p@);
            }
            return true;
        }
        i = i + 1;
    }
    false
}

/// `ProfileTransaction::capture`: the transaction to record before a switch
/// changes `paths` (`checks` telling what stands at each), its copies kept in
/// `<staging>/profile-rollback`. Paths are told apart by their text.
pub fn capture_transaction(paths: &[String], checks: &[PathCheck], staging: &str) -> (r: Result<
    ProfileTransaction,
    String,
>)
    requires
        checks@.len() == paths@.len(),
    ensures
        match r {
            Ok(t) => capture_from(views(paths@), checks@, rollback_root_spec(staging@), 0, Seq::empty()) == Ok::<
                Seq<(Seq<char>, Option<Seq<char>>)>,
                Seq<char>,
            >(t.entries@.map_values(|e: ProfileBackupEntry| entry_view(e))),
            Err(e) => capture_from(views(paths@), checks@, rollback_root_spec(staging@), 0, Seq::empty()) == Err::<
                Seq<(Seq<char>, Option<Seq<char>>)>,
                Seq<char>,
            >(e@),
        },
{
    let ghost pv = views(paths@);
    let backup_root = join_path_exec(&chars_of(staging), &chars_of("profile-rollback"));
    let ghost broot = rollback_root_spec(staging@);
    let mut entries: Vec<ProfileBackupEntry> = Vec::new();
    let ghost mut seen: Seq<Seq<char>> = Seq::empty();
    let mut i: usize = 0;
    while i < paths.len()
        invariant
            i <= paths@.len(),
            checks@.len() == paths@.len(),
            pv == views(paths@),
            backup_root@ == broot,
            broot == rollback_root_spec(staging@),
            seen.len() == entries@.len(),
            seen.len() <= i,
            forall|x: Seq<char>| #[trigger] seen.contains(x) <==> pv.take(i as int).contains(x),
            capture_from(pv, checks@, broot, 0, Seq::empty()) == match capture_from(pv, checks@, broot, i as int, seen) {
                Ok(rest) => Ok::<Seq<(Seq<char>, Option<Seq<char>>)>, Seq<char>>(
                    entries@.map_values(|e: ProfileBackupEntry| entry_view(e)) + rest,
                ),
                Err(e) => Err(e),
            },
        decreases paths.len() - i,
    {
        let pc = chars_of(paths[i].as_str());
        proof {
            assert(pv.take(i as int + 1) =~= pv.take(i as int).push(pv[i as int]));
            assert(pv[i as int] == pc@);
        }
        if !seen_before(paths, i, &pc) {
            let backup: Option<String> = if !checks[i].present {
                None
            } else {
                match &checks[i].kind {
                    Err(e) => {
                        return Err(e.clone());
                    },
                    Ok(PathKind::Symlink) => {
                        let m = concat_chars(
                            &concat_chars(&chars_of("Refusing to modify symlinked profile path "), &pc),
                            &chars_of("."),
                        );
                        return Err(string_from_chars(&m));
                    },
                    Ok(PathKind::File) => {
                        let n = zero_padded_exec(entries.len() as u64);
                        Some(string_from_chars(&join_path_exec(&backup_root, &n)))
                    },
                    Ok(_) => {
                        let m = concat_chars(&concat_chars(&chars_of("Profile path "), &pc), &chars_of(" is not a regular file."));
                        return Err(string_from_chars(&m));
                    },
                }
            };
            let ghost before = entries@.map_values(|e: ProfileBackupEntry| entry_view(e));
            let entry = ProfileBackupEntry { path: paths[i].clone(), backup };
            let ghost ev = entry_view(entry);
            entries.push(entry);
            proof {
                assert(entries@.map_values(|e: ProfileBackupEntry| entry_view(e)) =~= before.push(ev));
                match capture_from(pv, checks@, broot, i as int + 1, seen.push(pv[i as int])) {
                    Ok(rest) => {
                        assert(before + (seq![ev] + rest) =~= before.push(ev) + rest);
                    },
                    Err(_) => {},
                }
                assert forall|x: Seq<char>| #[trigger] seen.push(pv[i as int]).contains(x) <==> pv.take(
                    i as int + 1,
                ).contains(x) by {
                    let p = pv[i as int];
                    let sp = seen.push(p);
                    let t1 = pv.take(i as int + 1);
                    if sp.contains(x) {
                        if x == p {
                            assert(t1[i as int] == x);
                        } else {
                            let w = choose|w: int| 0 <= w < sp.len() && #[trigger] sp[w] == x;
                            assert(seen[w] == x);
                            assert(seen.contains(x));
                            assert(pv.take(i as int).contains(x));
                            let v = choose|v: int| 0 <= v < i && #[trigger] pv.take(i as int)[v] == x;
                            assert(t1[v] == x);
                        }
                    }
                    if t1.contains(x) {
                        if x == p {
                            assert(sp[seen.len() as int] == x);
                        } else {
                            let w = choose|w: int| 0 <= w < i + 1 && #[trigger] t1[w] == x;
                            assert(w != i);
                            assert(pv.take(i as int)[w] == x);
                            assert(pv.take(i as int).contains(x));
                            assert(seen.contains(x));
                            let v = choose|v: int| 0 <= v < seen.len() && #[trigger] seen[v] == x;
                            assert(sp[v] == x);
                        }
                    }
                }
                seen = seen.push(pv[i as int]);
            }
        } else {
            proof {
                assert(seen.contains(pv[i as int]));
                assert forall|x: Seq<char>| #[trigger] seen.contains(x) <==> pv.take(i as int + 1).contains(x) by {
                    if pv.take(i as int + 1).contains(x) && x != pv[i as int] {
                        let w = choose|w: int| 0 <= w < i + 1 && #[trigger] pv.take(i as int + 1)[w] == x;
                        assert(pv.take(i as int)[w] == x);
                    }
                    if seen.contains(x) {
                        let w = choose|w: int| 0 <= w < i && #[trigger] pv.take(i as int)[w] == x;
                        assert(pv.take(i as int + 1)[w] == x);
                    }
                }
            }
        }
        i = i + 1;
    }
    proof {
        let v = entries@.map_values(|e: ProfileBackupEntry| entry_view(e));
        assert(v + Seq::<(Seq<char>, Option<Seq<char>>)>::empty() =~= v);
    }
    Ok(ProfileTransaction { entries })
}

// ----------------------------------------------------------------------
// Undoing a switch
// ----------------------------------------------------------------------

pub open spec fn non_file_rollback_error(path: Seq<char>) -> Seq<char> {
    "Cannot roll back non-file profile path "@ + path + "."@
}

/// `ProfileTransaction::rollback` from entry `i` down to the first: copy
/// each saved file back, remove a file the switch created, refuse anything
/// else that now stands where no file stood. `present[i]` and `is_file[i]`
/// are what `Path::exists` and `Path::is_file` say of entry `i`'s path.
pub open spec fn rollback_from(
    entries: Seq<ProfileBackupEntry>,
    present: Seq<bool>,
    is_file: Seq<bool>,
    i: int,
) -> (Seq<FileStepView>, Option<Seq<char>>)
    decreases i + 1,
{
    if i < 0 || i >= entries.len() {
        (Seq::empty(), None)
    } else {
        match entries[i].backup {
            Some(b) => {
                let rest = rollback_from(entries, present, is_file, i - 1);
                (seq![FileStepView::Copy(b@, entries[i].path@)] + rest.0, rest.1)
            },
            None => if is_file[i] {
                let rest = rollback_from(entries, present, is_file, i - 1);
                (seq![FileStepView::RemoveIfFile(entries[i].path@)] + rest.0, rest.1)
            } else if present[i] {
                (Seq::empty(), Some(non_file_rollback_error(entries[i].path@)))
            } else {
                rollback_from(entries, present, is_file, i - 1)
            },
        }
    }
}

/// The steps of `ProfileTransaction::rollback`, last entry first, up to the
/// first path it cannot put back.
pub fn rollback_plan(transaction: &ProfileTransaction, present: &[bool], is_file: &[bool]) -> (r: FileRestorePlan)
    requires
        present@.len() == transaction.entries@.len(),
        is_file@.len() == transaction.entries@.len(),
    ensures
        r.steps@.map_values(|s: FileStep| s@) == rollback_from(
            transaction.entries@,
            present@,
            is_file@,
            transaction.entries@.len() - 1,
        ).0,
        match r.error {
            Some(e) => rollback_from(transaction.entries@, present@, is_file@, transaction.entries@.len() - 1).1 == Some(
                e@,
            ),
            None => rollback_from(transaction.entries@, present@, is_file@, transaction.entries@.len() - 1).1 is None,
        },
{
    let ghost es = transaction.entries@;
    let ghost whole = rollback_from(es, present@, is_file@, es.len() - 1);
    let mut steps: Vec<FileStep> = Vec::new();
    let mut i: usize = transaction.entries.len();
    while i > 0
        invariant
            i <= es.len(),
            es == transaction.entries@,
            present@.len() == es.len(),
            is_file@.len() == es.len(),
            whole == rollback_from(es, present@, is_file@, es.len() - 1),
            whole.0 == steps@.map_values(|s: FileStep| s@) + rollback_from(es, present@, is_file@, i - 1).0,
            whole.1 == rollback_from(es, present@, is_file@, i - 1).1,
        decreases i,
    {
        let k = i - 1;
        let e = &transaction.entries[k];
        let ghost before = steps@.map_values(|s: FileStep| s@);
        let ghost rest = rollback_from(es, present@, is_file@, k - 1);
        match &e.backup {
            Some(b) => {
                let s = FileStep::Copy { from: b.clone(), to: e.path.clone() };
                let ghost sv = s@;
                steps.push(s);
                proof {
                    assert(steps@.map_values(|s: FileStep| s@) =~= before.push(sv));
                    assert(before + (seq![sv] + rest.0) =~= before.push(sv) + rest.0);
                }
            },
            None => {
                if is_file[k] {
                    let s = FileStep::RemoveIfFile(e.path.clone());
                    let ghost sv = s@;
                    steps.push(s);
                    proof {
                        assert(steps@.map_values(|s: FileStep| s@) =~= before.push(sv));
                        assert(before + (seq![sv] + rest.0) =~= before.push(sv) + rest.0);
                    }
                } else if present[k] {
                    let m = concat_chars(
                        &concat_chars(&chars_of("Cannot roll back non-file profile path "), &chars_of(e.path.as_str())),
                        &chars_of("."),
                    );
                    proof {
                        assert(before + Seq::<FileStepView>::empty() =~= before);
                    }
                    return FileRestorePlan { steps, error: Some(string_from_chars(&m)) };
                }
            },
        }
        i = k;
    }
    proof {
        assert(steps@.map_values(|s: FileStep| s@) + Seq::<FileStepView>::empty() =~= steps@.map_values(|s: FileStep| s@));
    }
    FileRestorePlan { steps, error: None }
}

// ----------------------------------------------------------------------
// The files a switch touches, and what it does with them
// ----------------------------------------------------------------------

/// The campaign-owned saves a switch moves: those of the source campaign in
/// the profile and in its store, and those of the target campaign.
#[derive(Debug, Clone, PartialEq, Eq)]
pub struct SwitchSaves {
    pub source_saves: Vec<String>,
    pub target_saves: Vec<String>,
    pub source_store_saves: Vec<String>,
    pub target_store_saves: Vec<String>,
}

/// `<dir>/CampaignProgress.xml`.
pub open spec fn progress_file(dir: Seq<char>) -> Seq<char> {
    join_path(dir, "CampaignProgress.xml"@)
}

/// `<store>/ccm-resume.json`.
pub open spec fn resume_manifest_file(store: Seq<char>) -> Seq<char> {
    join_path(store, "ccm-resume.json"@)
}

/// The slot's bank files under `root`.
pub open spec fn bank_paths(root: Seq<char>, spec: CampaignProfileSpec) -> Seq<Seq<char>> {
    Seq::new(spec.banks@.len(), |i: int| bank_path(root, spec.banks@[i]@))
}

/// Each path relative to `from`, placed under `to`; paths outside `from` are left out.
pub open spec fn relocated(paths: Seq<Seq<char>>, from: Seq<char>, to: Seq<char>) -> Seq<Seq<char>>
    decreases paths.len(),
{
    if paths.len() == 0 {
        Seq::empty()
    } else {
        let head = match relative_under(from, paths[0]) {
            Some(rel) => seq![join_path(to, rel)],
            None => Seq::empty(),
        };
        head + relocated(paths.drop_first(), from, to)
    }
}

/// The files whose bytes the rollback copy must hold before a switch from
/// `source_spec` (store `source_store`) to `target_spec` changes anything.
pub open spec fn touched_spec(
    profile: Seq<char>,
    source_store: Seq<char>,
    target_store: Seq<char>,
    source_spec: CampaignProfileSpec,
    target_spec: CampaignProfileSpec,
    saves: SwitchSaves,
) -> Seq<Seq<char>> {
    seq![progress_file(profile), progress_file(source_store), resume_manifest_file(source_store)] + bank_paths(
        profile,
        source_spec,
    ) + bank_paths(profile, target_spec) + bank_paths(source_store, source_spec) + bank_paths(target_store, target_spec)
        + views(saves.source_saves@) + views(saves.target_saves@) + views(saves.source_store_saves@) + relocated(
        views(saves.source_saves@),
        profile,
        source_store,
    )
}

fn append_strings(out: &mut Vec<String>, items: &[String])
    ensures
        views(final(out)@) == views(old(out)@) + views(items@),
{
    let ghost start = views(out@);
    let mut i: usize = 0;
    while i < items.len()
        invariant
            i <= items@.len(),
            views(out@) == start + views(items@).take(i as int),
        decreases items.len() - i,
    {
        let ghost before = views(out@);
        out.push(items[i].clone());
        proof {
            assert(views(out@) =~= before.push(items@[i as int]@));
            assert(start + views(items@).take(i as int + 1) =~= (start + views(items@).take(i as int)).push(
                items@[i as int]@,
            ));
        }
        i = i + 1;
    }
    proof {
        assert(views(items@).take(i as int) =~= views(items@));
    }
}

fn bank_list(root: &str, spec: &CampaignProfileSpec) -> (r: Vec<String>)
    ensures
        views(r@) == bank_paths(root@, *spec),
{
    let r = campaign_slot_bank_paths(root, spec);
    proof {
        assert(views(r@) =~= bank_paths(root@, *spec));
    }
    r
}

proof fn lemma_relocated_push(paths: Seq<Seq<char>>, x: Seq<char>, from: Seq<char>, to: Seq<char>)
    ensures
        relocated(paths.push(x), from, to) == relocated(paths, from, to) + match relative_under(from, x) {
            Some(rel) => seq![join_path(to, rel)],
            None => Seq::<Seq<char>>::empty(),
        },
    decreases paths.len(),
{
    if paths.len() == 0 {
        assert(paths.push(x).drop_first() =~= Seq::<Seq<char>>::empty());
        assert(relocated(Seq::<Seq<char>>::empty(), from, to) == Seq::<Seq<char>>::empty());
        let h = match relative_under(from, x) {
            Some(rel) => seq![join_path(to, rel)],
            None => Seq::<Seq<char>>::empty(),
        };
        assert(h + Seq::<Seq<char>>::empty() =~= h);
        assert(Seq::<Seq<char>>::empty() + h =~= h);
    } else {
        lemma_relocated_push(paths.drop_first(), x, from, to);
        assert(paths.push(x).drop_first() =~= paths.drop_first().push(x));
        assert(paths.push(x)[0] == paths[0]);
        let head = match relative_under(from, paths[0]) {
            Some(rel) => seq![join_path(to, rel)],
            None => Seq::<Seq<char>>::empty(),
        };
        let tail = match relative_under(from, x) {
            Some(rel) => seq![join_path(to, rel)],
            None => Seq::<Seq<char>>::empty(),
        };
        assert(head + (relocated(paths.drop_first(), from, to) + tail) =~= (head + relocated(
            paths.drop_first(),
            from,
            to,
        )) + tail);
    }
}

fn relocate_all(paths: &[String], from: &str, to: &str) -> (r: Vec<String>)
    ensures
        views(r@) == relocated(views(paths@), from@, to@),
{
    let tc = chars_of(to);
    let mut out: Vec<String> = Vec::new();
    let mut i: usize = 0;
    while i < paths.len()
        invariant
            i <= paths@.len(),
            tc@ == to@,
            views(out@) == relocated(views(paths@).take(i as int), from@, to@),
        decreases paths.len() - i,
    {
        proof {
            assert(views(paths@).take(i as int + 1) =~= views(paths@).take(i as int).push(paths@[i as int]@));
            lemma_relocated_push(views(paths@).take(i as int), paths@[i as int]@, from@, to@);
        }
        match relative_profile_path(from, paths[i].as_str()) {
            Some(rel) => {
                let ghost before = views(out@);
                out.push(string_from_chars(&join_path_exec(&tc, &chars_of(rel.as_str()))));
                proof {
                    assert(views(out@) =~= before + seq![join_path(to@, rel@)]);
                }
            },
            None => {
                proof {
                    assert(views(out@) =~= views(out@) + Seq::<Seq<char>>::empty());
                }
            },
        }
        i = i + 1;
    }
    proof {
        assert(views(paths@).take(i as int) =~= views(paths@));
    }
    out
}

/// The paths `ProfileTransaction::capture` is given for a switch, in order.
pub fn touched_profile_paths(
    profile: &str,
    source_store: &str,
    target_store: &str,
    source_spec: &CampaignProfileSpec,
    target_spec: &CampaignProfileSpec,
    saves: &SwitchSaves,
) -> (r: Vec<String>)
    ensures
        views(r@) == touched_spec(profile@, source_store@, target_store@, *source_spec, *target_spec, *saves),
{
    let mut out: Vec<String> = Vec::new();
    out.push(string_from_chars(&join_path_exec(&chars_of(profile), &chars_of("CampaignProgress.xml"))));
    out.push(string_from_chars(&join_path_exec(&chars_of(source_store), &chars_of("CampaignProgress.xml"))));
    out.push(string_from_chars(&join_path_exec(&chars_of(source_store), &chars_of("ccm-resume.json"))));
    proof {
        assert(views(out@) =~= seq![progress_file(profile@), progress_file(source_store@), resume_manifest_file(source_store@)]);
    }
    append_strings(&mut out, &bank_list(profile, source_spec));
    append_strings(&mut out, &bank_list(profile, target_spec));
    append_strings(&mut out, &bank_list(source_store, source_spec));
    append_strings(&mut out, &bank_list(target_store, target_spec));
    append_strings(&mut out, &saves.source_saves);
    append_strings(&mut out, &saves.target_saves);
    append_strings(&mut out, &saves.source_store_saves);
    append_strings(&mut out, &relocate_all(&saves.source_saves, profile, source_store));
    out
}

/// One change a switch makes to the profile or its store.
#[derive(Debug, Clone, PartialEq, Eq)]
pub enum SwitchStep {
    /// Remove a profile file if one stands there.
    RemoveFile(String),
    /// Copy when `from` is a regular file.
    CopyIfFile { from: String, to: String },
    Copy { from: String, to: String },
    /// Record which campaign the source store's snapshot belongs to.
    WriteResumeManifest(String),
    /// Merge the stored progress node into the live file (or reset it when
    /// none is stored), if the live file exists.
    UpdateProgress { live: String, stored: String },
}

pub enum SwitchStepView {
    RemoveFile(Seq<char>),
    CopyIfFile(Seq<char>, Seq<char>),
    Copy(Seq<char>, Seq<char>),
    WriteResumeManifest(Seq<char>),
    UpdateProgress(Seq<char>, Seq<char>),
}

impl View for SwitchStep {
    type V = SwitchStepView;

    open spec fn view(&self) -> SwitchStepView {
        match self {
            SwitchStep::RemoveFile(p) => SwitchStepView::RemoveFile(p@),
            SwitchStep::CopyIfFile { from, to } => SwitchStepView::CopyIfFile(from@, to@),
            SwitchStep::Copy { from, to } => SwitchStepView::Copy(from@, to@),
            SwitchStep::WriteResumeManifest(p) => SwitchStepView::WriteResumeManifest(p@),
            SwitchStep::UpdateProgress { live, stored } => SwitchStepView::UpdateProgress(live@, stored@),
        }
    }
}

pub open spec fn planned_view(r: Result<SwitchStep, String>) -> Result<SwitchStepView, Seq<char>> {
    match r {
        Ok(s) => Ok(s@),
        Err(e) => Err(e@),
    }
}

pub open spec fn removal_steps(paths: Seq<Seq<char>>) -> Seq<Result<SwitchStepView, Seq<char>>> {
    paths.map_values(|p: Seq<char>| Ok::<SwitchStepView, Seq<char>>(SwitchStepView::RemoveFile(p)))
}

pub open spec fn conditional_copies(from: Seq<Seq<char>>, to: Seq<Seq<char>>) -> Seq<Result<SwitchStepView, Seq<char>>> {
    Seq::new(
        if from.len() <= to.len() {
            from.len()
        } else {
            to.len()
        },
        |i: int| Ok::<SwitchStepView, Seq<char>>(SwitchStepView::CopyIfFile(from[i], to[i])),
    )
}

/// Copies of `paths` to the same place relative to `to`; a path outside
/// `from` is the error `msg`.
pub open spec fn relocated_copies(paths: Seq<Seq<char>>, from: Seq<char>, to: Seq<char>, msg: Seq<char>) -> Seq<
    Result<SwitchStepView, Seq<char>>,
> {
    paths.map_values(
        |p: Seq<char>|
            match relative_under(from, p) {
                Some(rel) => Ok::<SwitchStepView, Seq<char>>(SwitchStepView::Copy(p, join_path(to, rel))),
                None => Err::<SwitchStepView, Seq<char>>(msg),
            },
    )
}

pub open spec fn escaped_profile_error() -> Seq<char> {
    "Profile file escaped its root."@
}

pub open spec fn escaped_store_error() -> Seq<char> {
    "Target profile save escaped its store."@
}

/// Everything a switch does, in order: clear the source store's stale saves,
/// snapshot the source slot (progress, banks, saves, and its campaign) into
/// its store, clear both slots in the profile, bring the target slot's banks
/// and saves back from its store, and switch the progress node.
pub open spec fn switch_plan_spec(
    profile: Seq<char>,
    source_store: Seq<char>,
    target_store: Seq<char>,
    source_spec: CampaignProfileSpec,
    target_spec: CampaignProfileSpec,
    saves: SwitchSaves,
    writes_manifest: bool,
) -> Seq<Result<SwitchStepView, Seq<char>>> {
    let sb = bank_paths(profile, source_spec);
    let tb = bank_paths(profile, target_spec);
    removal_steps(views(saves.source_store_saves@)) + seq![
        Ok::<SwitchStepView, Seq<char>>(SwitchStepView::CopyIfFile(progress_file(profile), progress_file(source_store))),
    ] + conditional_copies(sb, bank_paths(source_store, source_spec)) + relocated_copies(
        views(saves.source_saves@),
        profile,
        source_store,
        escaped_profile_error(),
    ) + (if writes_manifest {
        seq![Ok::<SwitchStepView, Seq<char>>(SwitchStepView::WriteResumeManifest(resume_manifest_file(source_store)))]
    } else {
        Seq::empty()
    }) + removal_steps(views(saves.source_saves@)) + removal_steps(sb) + removal_steps(views(saves.target_saves@))
        + removal_steps(tb) + conditional_copies(bank_paths(target_store, target_spec), tb) + relocated_copies(
        views(saves.target_store_saves@),
        target_store,
        profile,
        escaped_store_error(),
    ) + seq![
        Ok::<SwitchStepView, Seq<char>>(
            SwitchStepView::UpdateProgress(progress_file(profile), progress_file(target_store)),
        ),
    ]
}

/// The steps before the first error, and that error.
pub open spec fn cut_from(xs: Seq<Result<SwitchStepView, Seq<char>>>, i: int) -> (Seq<SwitchStepView>, Option<Seq<char>>)
    decreases xs.len() - i,
{
    if i < 0 || i >= xs.len() {
        (Seq::empty(), None)
    } else {
        match xs[i] {
            Err(e) => (Seq::empty(), Some(e)),
            Ok(v) => {
                let rest = cut_from(xs, i + 1);
                (seq![v] + rest.0, rest.1)
            },
        }
    }
}

/// The steps of a switch, carried out in order until the error, if any.
#[derive(Debug, PartialEq, Eq)]
pub struct SwitchPlan {
    pub steps: Vec<SwitchStep>,
    pub error: Option<String>,
}

/// A switch plan as text.
pub open spec fn plan_view(p: SwitchPlan) -> (Seq<SwitchStepView>, Option<Seq<char>>) {
    (
        p.steps@.map_values(|s: SwitchStep| s@),
        match p.error {
            Some(e) => Some(e@),
            None => None,
        },
    )
}

proof fn lemma_cut_push(xs: Seq<Result<SwitchStepView, Seq<char>>>, x: Result<SwitchStepView, Seq<char>>, i: int)
    requires
        0 <= i <= xs.len(),
    ensures
        cut_from(xs.push(x), i) == (if cut_from(xs, i).1 is Some {
            cut_from(xs, i)
        } else {
            match x {
                Ok(v) => (cut_from(xs, i).0.push(v), None::<Seq<char>>),
                Err(e) => (cut_from(xs, i).0, Some(e)),
            }
        }),
    decreases xs.len() - i,
{
    let ys = xs.push(x);
    if i == xs.len() {
        assert(ys[i] == x);
        assert(cut_from(ys, i + 1) == (Seq::<SwitchStepView>::empty(), None::<Seq<char>>));
        match x {
            Ok(v) => {
                assert(seq![v] + Seq::<SwitchStepView>::empty() =~= Seq::<SwitchStepView>::empty().push(v));
            },
            Err(_) => {},
        }
    } else {
        lemma_cut_push(xs, x, i + 1);
        assert(ys[i] == xs[i]);
        match xs[i] {
            Err(_) => {},
            Ok(v) => {
                let rest = cut_from(xs, i + 1);
                if rest.1 is None {
                    match x {
                        Ok(w) => {
                            assert(seq![v] + rest.0.push(w) =~= (seq![v] + rest.0).push(w));
                        },
                        Err(_) => {},
                    }
                }
            },
        }
    }
}

fn push_step(plan: &mut SwitchPlan, x: Result<SwitchStep, String>, Ghost(prefix): Ghost<Seq<Result<SwitchStepView, Seq<char>>>>)
    requires
        plan_view(*old(plan)) == cut_from(prefix, 0),
    ensures
        plan_view(*final(plan)) == cut_from(prefix.push(planned_view(x)), 0),
{
    proof {
        lemma_cut_push(prefix, planned_view(x), 0);
    }
    if plan.error.is_some() {
        return;
    }
    match x {
        Ok(s) => {
            let ghost before = plan.steps@.map_values(|s: SwitchStep| s@);
            let ghost sv = s@;
            plan.steps.push(s);
            proof {
                assert(plan.steps@.map_values(|s: SwitchStep| s@) =~= before.push(sv));
            }
        },
        Err(e) => {
            plan.error = Some(e);
        },
    }
}

fn push_removals(plan: &mut SwitchPlan, paths: &[String], Ghost(prefix): Ghost<Seq<Result<SwitchStepView, Seq<char>>>>)
    requires
        plan_view(*old(plan)) == cut_from(prefix, 0),
    ensures
        plan_view(*final(plan)) == cut_from(prefix + removal_steps(views(paths@)), 0),
{
    let ghost seg = removal_steps(views(paths@));
    let mut i: usize = 0;
    while i < paths.len()
        invariant
            i <= paths@.len(),
            seg == removal_steps(views(paths@)),
            plan_view(*plan) == cut_from(prefix + seg.take(i as int), 0),
        decreases paths.len() - i,
    {
        let x: Result<SwitchStep, String> = Ok(SwitchStep::RemoveFile(paths[i].clone()));
        proof {
            assert(planned_view(x) == seg[i as int]);
            assert(prefix + seg.take(i as int + 1) =~= (prefix + seg.take(i as int)).push(seg[i as int]));
        }
        push_step(plan, x, Ghost(prefix + seg.take(i as int)));
        i = i + 1;
    }
    proof {
        assert(seg.take(i as int) =~= seg);
    }
}

fn push_conditional_copies(
    plan: &mut SwitchPlan,
    from: &[String],
    to: &[String],
    Ghost(prefix): Ghost<Seq<Result<SwitchStepView, Seq<char>>>>,
)
    requires
        plan_view(*old(plan)) == cut_from(prefix, 0),
    ensures
        plan_view(*final(plan)) == cut_from(prefix + conditional_copies(views(from@), views(to@)), 0),
{
    let ghost seg = conditional_copies(views(from@), views(to@));
    let n = if from.len() <= to.len() {
        from.len()
    } else {
        to.len()
    };
    let mut i: usize = 0;
    while i < n
        invariant
            i <= n,
            n <= from@.len(),
            n <= to@.len(),
            seg.len() == n,
            seg == conditional_copies(views(from@), views(to@)),
            plan_view(*plan) == cut_from(prefix + seg.take(i as int), 0),
        decreases n - i,
    {
        let x: Result<SwitchStep, String> = Ok(SwitchStep::CopyIfFile { from: from[i].clone(), to: to[i].clone() });
        proof {
            assert(planned_view(x) == seg[i as int]);
            assert(prefix + seg.take(i as int + 1) =~= (prefix + seg.take(i as int)).push(seg[i as int]));
        }
        push_step(plan, x, Ghost(prefix + seg.take(i as int)));
        i = i + 1;
    }
    proof {
        assert(seg.take(i as int) =~= seg);
    }
}

fn push_relocated_copies(
    plan: &mut SwitchPlan,
    paths: &[String],
    from: &str,
    to: &str,
    msg: &str,
    Ghost(prefix): Ghost<Seq<Result<SwitchStepView, Seq<char>>>>,
)
    requires
        plan_view(*old(plan)) == cut_from(prefix, 0),
    ensures
        plan_view(*final(plan)) == cut_from(prefix + relocated_copies(views(paths@), from@, to@, msg@), 0),
{
    let ghost seg = relocated_copies(views(paths@), from@, to@, msg@);
    let tc = chars_of(to);
    let mut i: usize = 0;
    while i < paths.len()
        invariant
            i <= paths@.len(),
            tc@ == to@,
            seg == relocated_copies(views(paths@), from@, to@, msg@),
            plan_view(*plan) == cut_from(prefix + seg.take(i as int), 0),
        decreases paths.len() - i,
    {
        let x: Result<SwitchStep, String> = match relative_profile_path(from, paths[i].as_str()) {
            Some(rel) => Ok(
                SwitchStep::Copy {
                    from: paths[i].clone(),
                    to: string_from_chars(&join_path_exec(&tc, &chars_of(rel.as_str()))),
                },
            ),
            None => Err(owned(msg)),
        };
        proof {
            assert(planned_view(x) == seg[i as int]);
            assert(prefix + seg.take(i as int + 1) =~= (prefix + seg.take(i as int)).push(seg[i as int]));
        }
        push_step(plan, x, Ghost(prefix + seg.take(i as int)));
        i = i + 1;
    }
    proof {
        assert(seg.take(i as int) =~= seg);
    }
}

/// The operation of a profile switch once its rollback copy is recorded: each step in order, and the error (a save
/// outside its profile or store) that stops it. `source_campaign_id` is empty
/// for the unmodified campaign, whose snapshot records no campaign.
pub fn switch_plan(
    profile: &str,
    source_store: &str,
    target_store: &str,
    source_spec: &CampaignProfileSpec,
    target_spec: &CampaignProfileSpec,
    saves: &SwitchSaves,
    source_campaign_id: &str,
) -> (r: SwitchPlan)
    ensures
        plan_view(r) == cut_from(
            switch_plan_spec(
                profile@,
                source_store@,
                target_store@,
                *source_spec,
                *target_spec,
                *saves,
                source_campaign_id@.len() > 0,
            ),
            0,
        ),
{
    let ghost writes = source_campaign_id@.len() > 0;
    let sb = bank_list(profile, source_spec);
    let tb = bank_list(profile, target_spec);
    let ssb = bank_list(source_store, source_spec);
    let tsb = bank_list(target_store, target_spec);
    let progress = string_from_chars(&join_path_exec(&chars_of(profile), &chars_of("CampaignProgress.xml")));
    let mut plan = SwitchPlan { steps: Vec::new(), error: None };
    let ghost p0 = Seq::<Result<SwitchStepView, Seq<char>>>::empty();
    proof {
        assert(plan_view(plan).0 =~= Seq::<SwitchStepView>::empty());
    }
    push_removals(&mut plan, &saves.source_store_saves, Ghost(p0));
    let ghost p1 = p0 + removal_steps(views(saves.source_store_saves@));
    let x1: Result<SwitchStep, String> = Ok(
        SwitchStep::CopyIfFile {
            from: progress.clone(),
            to: string_from_chars(&join_path_exec(&chars_of(source_store), &chars_of("CampaignProgress.xml"))),
        },
    );
    push_step(&mut plan, x1, Ghost(p1));
    let ghost p2 = p1.push(planned_view(x1));
    push_conditional_copies(&mut plan, &sb, &ssb, Ghost(p2));
    let ghost p3 = p2 + conditional_copies(views(sb@), views(ssb@));
    push_relocated_copies(&mut plan, &saves.source_saves, profile, source_store, "Profile file escaped its root.", Ghost(p3));
    let ghost p4 = p3 + relocated_copies(views(saves.source_saves@), profile@, source_store@, escaped_profile_error());
    let ghost mut p5 = p4;
    if !source_campaign_id.is_empty() {
        let x2: Result<SwitchStep, String> = Ok(
            SwitchStep::WriteResumeManifest(
                string_from_chars(&join_path_exec(&chars_of(source_store), &chars_of("ccm-resume.json"))),
            ),
        );
        push_step(&mut plan, x2, Ghost(p4));
        proof {
            p5 = p4.push(planned_view(x2));
        }
    }
    push_removals(&mut plan, &saves.source_saves, Ghost(p5));
    let ghost p6 = p5 + removal_steps(views(saves.source_saves@));
    push_removals(&mut plan, &sb, Ghost(p6));
    let ghost p7 = p6 + removal_steps(views(sb@));
    push_removals(&mut plan, &saves.target_saves, Ghost(p7));
    let ghost p8 = p7 + removal_steps(views(saves.target_saves@));
    push_removals(&mut plan, &tb, Ghost(p8));
    let ghost p9 = p8 + removal_steps(views(tb@));
    push_conditional_copies(&mut plan, &tsb, &tb, Ghost(p9));
    let ghost p10 = p9 + conditional_copies(views(tsb@), views(tb@));
    push_relocated_copies(
        &mut plan,
        &saves.target_store_saves,
        target_store,
        profile,
        "Target profile save escaped its store.",
        Ghost(p10),
    );
    let ghost p11 = p10 + relocated_copies(views(saves.target_store_saves@), target_store@, profile@, escaped_store_error());
    let x3: Result<SwitchStep, String> = Ok(
        SwitchStep::UpdateProgress {
            live: progress,
            stored: string_from_chars(&join_path_exec(&chars_of(target_store), &chars_of("CampaignProgress.xml"))),
        },
    );
    push_step(&mut plan, x3, Ghost(p11));
    proof {
        reveal_strlit("Profile file escaped its root.");
        reveal_strlit("Target profile save escaped its store.");
        let full = switch_plan_spec(profile@, source_store@, target_store@, *source_spec, *target_spec, *saves, writes);
        let mid: Seq<Result<SwitchStepView, Seq<char>>> = if writes {
            seq![Ok::<SwitchStepView, Seq<char>>(SwitchStepView::WriteResumeManifest(resume_manifest_file(source_store@)))]
        } else {
            Seq::empty()
        };
        assert(p5 =~= p4 + mid);
        assert(p11.push(planned_view(x3)) =~= full);
    }
    plan
}

/// A switch changes a profile only between two campaign branches CCM
/// manages, in a game that looks like StarCraft II, for a profile that was
/// chosen or discovered; otherwise it records an empty transaction.
pub fn profile_switch_applies(
    source_target: &str,
    target: &str,
    looks_like_starcraft: bool,
    profile_selected: bool,
) -> (r: bool)
    ensures
        r == (is_campaign_target(source_target@) && is_campaign_target(target@) && looks_like_starcraft && profile_selected),
{
    is_campaign_target_exec(&chars_of(target)) && is_campaign_target_exec(&chars_of(source_target)) && looks_like_starcraft
        && profile_selected
}

proof fn lemma_capture_distinct_from(
    paths: Seq<Seq<char>>,
    checks: Seq<PathCheck>,
    backup_root: Seq<char>,
    i: int,
    seen: Seq<Seq<char>>,
)
    requires
        0 <= i,
        capture_from(paths, checks, backup_root, i, seen) is Ok,
    ensures
        ({
            let es = capture_from(paths, checks, backup_root, i, seen)->Ok_0;
            &&& forall|a: int| 0 <= a < es.len() ==> !seen.contains(#[trigger] es[a].0)
            &&& forall|a: int, b: int| 0 <= a < b < es.len() ==> #[trigger] es[a].0 != #[trigger] es[b].0
        }),
    decreases paths.len() - i,
{
    if i >= paths.len() {
    } else if seen.contains(paths[i]) {
        lemma_capture_distinct_from(paths, checks, backup_root, i + 1, seen);
    } else {
        let p = paths[i];
        lemma_capture_distinct_from(paths, checks, backup_root, i + 1, seen.push(p));
        let es = capture_from(paths, checks, backup_root, i, seen)->Ok_0;
        let rest = capture_from(paths, checks, backup_root, i + 1, seen.push(p))->Ok_0;
        assert(es == seq![es[0]] + rest);
        assert(es[0].0 == p);
        assert forall|a: int| 0 <= a < rest.len() implies !seen.contains(#[trigger] rest[a].0) && rest[a].0 != p by {
            assert(!seen.push(p).contains(rest[a].0));
            if seen.contains(rest[a].0) {
                let w = choose|w: int| 0 <= w < seen.len() && seen[w] == rest[a].0;
                assert(seen.push(p)[w] == rest[a].0);
            }
            assert(seen.push(p)[seen.len() as int] == p);
        }
        assert forall|a: int| 0 <= a < es.len() implies !seen.contains(#[trigger] es[a].0) by {
            if a > 0 {
                assert(es[a] == rest[a - 1]);
            }
        }
        assert forall|a: int, b: int| 0 <= a < b < es.len() implies #[trigger] es[a].0 != #[trigger] es[b].0 by {
            assert(es[b] == rest[b - 1]);
            if a > 0 {
                assert(es[a] == rest[a - 1]);
            }
        }
    }
}

/// A rollback copy records each profile path at most once, however often
/// the switch names it.
pub proof fn lemma_capture_records_each_path_once(paths: Seq<Seq<char>>, checks: Seq<PathCheck>, staging: Seq<char>)
    requires
        capture_from(paths, checks, rollback_root_spec(staging), 0, Seq::empty()) is Ok,
    ensures
        ({
            let es = capture_from(paths, checks, rollback_root_spec(staging), 0, Seq::empty())->Ok_0;
            forall|a: int, b: int| 0 <= a < b < es.len() ==> #[trigger] es[a].0 != #[trigger] es[b].0
        }),
{
    lemma_capture_distinct_from(paths, checks, rollback_root_spec(staging), 0, Seq::empty());
}

// ----------------------------------------------------------------------
// What the rollback copy covers
// ----------------------------------------------------------------------

/// The profile file a step removes or writes.
pub open spec fn step_target(v: SwitchStepView) -> Seq<char> {
    match v {
        SwitchStepView::RemoveFile(p) => p,
        SwitchStepView::CopyIfFile(_, t) => t,
        SwitchStepView::Copy(_, t) => t,
        SwitchStepView::WriteResumeManifest(p) => p,
        SwitchStepView::UpdateProgress(live, _) => live,
    }
}

/// A copy of one of the target store's saves back into the profile.
pub open spec fn restores_store_save(v: SwitchStepView, restored: Seq<Seq<char>>) -> bool {
    match v {
        SwitchStepView::Copy(from, _) => restored.contains(from),
        _ => false,
    }
}

pub open spec fn step_covered(r: Result<SwitchStepView, Seq<char>>, touched: Seq<Seq<char>>, restored: Seq<Seq<char>>) -> bool {
    match r {
        Ok(v) => touched.contains(step_target(v)) || restores_store_save(v, restored),
        Err(_) => true,
    }
}

pub open spec fn all_covered(xs: Seq<Result<SwitchStepView, Seq<char>>>, touched: Seq<Seq<char>>, restored: Seq<Seq<char>>) -> bool {
    forall|k: int| 0 <= k < xs.len() ==> step_covered(#[trigger] xs[k], touched, restored)
}

proof fn lemma_covered_concat(
    a: Seq<Result<SwitchStepView, Seq<char>>>,
    b: Seq<Result<SwitchStepView, Seq<char>>>,
    touched: Seq<Seq<char>>,
    restored: Seq<Seq<char>>,
)
    requires
        all_covered(a, touched, restored),
        all_covered(b, touched, restored),
    ensures
        all_covered(a + b, touched, restored),
{
    assert forall|k: int| 0 <= k < (a + b).len() implies step_covered(#[trigger] (a + b)[k], touched, restored) by {
        if k < a.len() {
            assert((a + b)[k] == a[k]);
        } else {
            assert((a + b)[k] == b[k - a.len()]);
        }
    }
}

/// Every item of `part` is in `whole`.
pub open spec fn within(part: Seq<Seq<char>>, whole: Seq<Seq<char>>) -> bool {
    forall|k: int| 0 <= k < part.len() ==> whole.contains(#[trigger] part[k])
}

proof fn lemma_within_left(a: Seq<Seq<char>>, b: Seq<Seq<char>>, part: Seq<Seq<char>>)
    requires
        within(part, a),
    ensures
        within(part, a + b),
{
    assert forall|k: int| 0 <= k < part.len() implies (a + b).contains(#[trigger] part[k]) by {
        let w = choose|w: int| 0 <= w < a.len() && a[w] == part[k];
        assert((a + b)[w] == part[k]);
    }
}

proof fn lemma_within_right(a: Seq<Seq<char>>, b: Seq<Seq<char>>, part: Seq<Seq<char>>)
    requires
        within(part, b),
    ensures
        within(part, a + b),
{
    assert forall|k: int| 0 <= k < part.len() implies (a + b).contains(#[trigger] part[k]) by {
        let w = choose|w: int| 0 <= w < b.len() && b[w] == part[k];
        assert((a + b)[a.len() + w] == part[k]);
    }
}

proof fn lemma_relocated_contains(paths: Seq<Seq<char>>, from: Seq<char>, to: Seq<char>, k: int)
    requires
        0 <= k < paths.len(),
        relative_under(from, paths[k]) is Some,
    ensures
        relocated(paths, from, to).contains(join_path(to, relative_under(from, paths[k])->0)),
    decreases paths.len(),
{
    let head = match relative_under(from, paths[0]) {
        Some(rel) => seq![join_path(to, rel)],
        None => Seq::<Seq<char>>::empty(),
    };
    let tail = relocated(paths.drop_first(), from, to);
    assert(relocated(paths, from, to) == head + tail);
    if k == 0 {
        assert((head + tail)[0] == join_path(to, relative_under(from, paths[0])->0));
    } else {
        assert(paths.drop_first()[k - 1] == paths[k]);
        lemma_relocated_contains(paths.drop_first(), from, to, k - 1);
        let w = choose|w: int| 0 <= w < tail.len() && tail[w] == join_path(to, relative_under(from, paths[k])->0);
        assert((head + tail)[head.len() + w] == tail[w]);
    }
}

/// Every profile file a switch removes or writes was in its rollback copy,
/// except the target campaign's saves brought back from its store (which the
/// profile did not hold before). This is what lets a failed or interrupted
/// switch be undone.
pub proof fn lemma_switch_changes_only_captured_files(
    profile: Seq<char>,
    source_store: Seq<char>,
    target_store: Seq<char>,
    source_spec: CampaignProfileSpec,
    target_spec: CampaignProfileSpec,
    saves: SwitchSaves,
    writes_manifest: bool,
)
    ensures
        all_covered(
            switch_plan_spec(profile, source_store, target_store, source_spec, target_spec, saves, writes_manifest),
            touched_spec(profile, source_store, target_store, source_spec, target_spec, saves),
            views(saves.target_store_saves@),
        ),
{
    let touched = touched_spec(profile, source_store, target_store, source_spec, target_spec, saves);
    let restored = views(saves.target_store_saves@);
    let head = seq![progress_file(profile), progress_file(source_store), resume_manifest_file(source_store)];
    let sb = bank_paths(profile, source_spec);
    let tb = bank_paths(profile, target_spec);
    let ssb = bank_paths(source_store, source_spec);
    let tsb = bank_paths(target_store, target_spec);
    let ss = views(saves.source_saves@);
    let ts = views(saves.target_saves@);
    let sss = views(saves.source_store_saves@);
    let rel = relocated(ss, profile, source_store);
    let t1 = head + sb;
    let t2 = t1 + tb;
    let t3 = t2 + ssb;
    let t4 = t3 + tsb;
    let t5 = t4 + ss;
    let t6 = t5 + ts;
    let t7 = t6 + sss;
    assert(touched == t7 + rel);
    // Where each group of paths lies in the capture.
    assert(within(head, head)) by {
        assert forall|k: int| 0 <= k < head.len() implies head.contains(#[trigger] head[k]) by {}
    }
    assert(within(sb, sb)) by {
        assert forall|k: int| 0 <= k < sb.len() implies sb.contains(#[trigger] sb[k]) by {}
    }
    assert(within(tb, tb)) by {
        assert forall|k: int| 0 <= k < tb.len() implies tb.contains(#[trigger] tb[k]) by {}
    }
    assert(within(ssb, ssb)) by {
        assert forall|k: int| 0 <= k < ssb.len() implies ssb.contains(#[trigger] ssb[k]) by {}
    }
    assert(within(ss, ss)) by {
        assert forall|k: int| 0 <= k < ss.len() implies ss.contains(#[trigger] ss[k]) by {}
    }
    assert(within(ts, ts)) by {
        assert forall|k: int| 0 <= k < ts.len() implies ts.contains(#[trigger] ts[k]) by {}
    }
    assert(within(sss, sss)) by {
        assert forall|k: int| 0 <= k < sss.len() implies sss.contains(#[trigger] sss[k]) by {}
    }
    assert(within(rel, rel)) by {
        assert forall|k: int| 0 <= k < rel.len() implies rel.contains(#[trigger] rel[k]) by {}
    }
    lemma_within_left(head, sb, head);
    lemma_within_left(t1, tb, head);
    lemma_within_left(t2, ssb, head);
    lemma_within_left(t3, tsb, head);
    lemma_within_left(t4, ss, head);
    lemma_within_left(t5, ts, head);
    lemma_within_left(t6, sss, head);
    lemma_within_left(t7, rel, head);
    lemma_within_right(head, sb, sb);
    lemma_within_left(t1, tb, sb);
    lemma_within_left(t2, ssb, sb);
    lemma_within_left(t3, tsb, sb);
    lemma_within_left(t4, ss, sb);
    lemma_within_left(t5, ts, sb);
    lemma_within_left(t6, sss, sb);
    lemma_within_left(t7, rel, sb);
    lemma_within_right(t1, tb, tb);
    lemma_within_left(t2, ssb, tb);
    lemma_within_left(t3, tsb, tb);
    lemma_within_left(t4, ss, tb);
    lemma_within_left(t5, ts, tb);
    lemma_within_left(t6, sss, tb);
    lemma_within_left(t7, rel, tb);
    lemma_within_right(t2, ssb, ssb);
    lemma_within_left(t3, tsb, ssb);
    lemma_within_left(t4, ss, ssb);
    lemma_within_left(t5, ts, ssb);
    lemma_within_left(t6, sss, ssb);
    lemma_within_left(t7, rel, ssb);
    lemma_within_right(t4, ss, ss);
    lemma_within_left(t5, ts, ss);
    lemma_within_left(t6, sss, ss);
    lemma_within_left(t7, rel, ss);
    lemma_within_right(t5, ts, ts);
    lemma_within_left(t6, sss, ts);
    lemma_within_left(t7, rel, ts);
    lemma_within_right(t6, sss, sss);
    lemma_within_left(t7, rel, sss);
    lemma_within_right(t7, rel, rel);
    assert(touched.contains(head[0]) && touched.contains(head[1]) && touched.contains(head[2]));
    // Each part of the plan is covered.
    let a1 = removal_steps(sss);
    assert(all_covered(a1, touched, restored)) by {
        assert forall|k: int| 0 <= k < a1.len() implies step_covered(#[trigger] a1[k], touched, restored) by {
            assert(touched.contains(sss[k]));
        }
    }
    let a2 = seq![Ok::<SwitchStepView, Seq<char>>(SwitchStepView::CopyIfFile(progress_file(profile), progress_file(source_store)))];
    assert(all_covered(a2, touched, restored));
    let a3 = conditional_copies(sb, ssb);
    assert(all_covered(a3, touched, restored)) by {
        assert forall|k: int| 0 <= k < a3.len() implies step_covered(#[trigger] a3[k], touched, restored) by {
            assert(touched.contains(ssb[k]));
        }
    }
    let a4 = relocated_copies(ss, profile, source_store, escaped_profile_error());
    assert(all_covered(a4, touched, restored)) by {
        assert forall|k: int| 0 <= k < a4.len() implies step_covered(#[trigger] a4[k], touched, restored) by {
            if relative_under(profile, ss[k]) is Some {
                lemma_relocated_contains(ss, profile, source_store, k);
                let w = choose|w: int| 0 <= w < rel.len() && rel[w] == join_path(source_store, relative_under(profile, ss[k])->0);
                assert(touched.contains(rel[w]));
            }
        }
    }
    let a5: Seq<Result<SwitchStepView, Seq<char>>> = if writes_manifest {
        seq![Ok::<SwitchStepView, Seq<char>>(SwitchStepView::WriteResumeManifest(resume_manifest_file(source_store)))]
    } else {
        Seq::empty()
    };
    assert(all_covered(a5, touched, restored));
    let a6 = removal_steps(ss);
    assert(all_covered(a6, touched, restored)) by {
        assert forall|k: int| 0 <= k < a6.len() implies step_covered(#[trigger] a6[k], touched, restored) by {
            assert(touched.contains(ss[k]));
        }
    }
    let a7 = removal_steps(sb);
    assert(all_covered(a7, touched, restored)) by {
        assert forall|k: int| 0 <= k < a7.len() implies step_covered(#[trigger] a7[k], touched, restored) by {
            assert(touched.contains(sb[k]));
        }
    }
    let a8 = removal_steps(ts);
    assert(all_covered(a8, touched, restored)) by {
        assert forall|k: int| 0 <= k < a8.len() implies step_covered(#[trigger] a8[k], touched, restored) by {
            assert(touched.contains(ts[k]));
        }
    }
    let a9 = removal_steps(tb);
    assert(all_covered(a9, touched, restored)) by {
        assert forall|k: int| 0 <= k < a9.len() implies step_covered(#[trigger] a9[k], touched, restored) by {
            assert(touched.contains(tb[k]));
        }
    }
    let a10 = conditional_copies(tsb, tb);
    assert(all_covered(a10, touched, restored)) by {
        assert forall|k: int| 0 <= k < a10.len() implies step_covered(#[trigger] a10[k], touched, restored) by {
            assert(touched.contains(tb[k]));
        }
    }
    let a11 = relocated_copies(restored, target_store, profile, escaped_store_error());
    assert(all_covered(a11, touched, restored)) by {
        assert forall|k: int| 0 <= k < a11.len() implies step_covered(#[trigger] a11[k], touched, restored) by {
            assert(restored.contains(restored[k]));
        }
    }
    let a12 = seq![
        Ok::<SwitchStepView, Seq<char>>(SwitchStepView::UpdateProgress(progress_file(profile), progress_file(target_store))),
    ];
    assert(all_covered(a12, touched, restored));
    lemma_covered_concat(a1, a2, touched, restored);
    lemma_covered_concat(a1 + a2, a3, touched, restored);
    lemma_covered_concat(a1 + a2 + a3, a4, touched, restored);
    lemma_covered_concat(a1 + a2 + a3 + a4, a5, touched, restored);
    lemma_covered_concat(a1 + a2 + a3 + a4 + a5, a6, touched, restored);
    lemma_covered_concat(a1 + a2 + a3 + a4 + a5 + a6, a7, touched, restored);
    lemma_covered_concat(a1 + a2 + a3 + a4 + a5 + a6 + a7, a8, touched, restored);
    lemma_covered_concat(a1 + a2 + a3 + a4 + a5 + a6 + a7 + a8, a9, touched, restored);
    lemma_covered_concat(a1 + a2 + a3 + a4 + a5 + a6 + a7 + a8 + a9, a10, touched, restored);
    lemma_covered_concat(a1 + a2 + a3 + a4 + a5 + a6 + a7 + a8 + a9 + a10, a11, touched, restored);
    lemma_covered_concat(a1 + a2 + a3 + a4 + a5 + a6 + a7 + a8 + a9 + a10 + a11, a12, touched, restored);
    assert(switch_plan_spec(profile, source_store, target_store, source_spec, target_spec, saves, writes_manifest)
        == a1 + a2 + a3 + a4 + a5 + a6 + a7 + a8 + a9 + a10 + a11 + a12);
}

// ----------------------------------------------------------------------
// Rolling a switch back
// ----------------------------------------------------------------------

/// What a capture promises of the files before the switch: each path once;
/// a copy kept exactly for a path that held a file, with that file's
/// content; no copy kept at a captured path.
pub open spec fn captured_from(entries: Seq<ProfileBackupEntry>, before: Map<Seq<char>, Seq<u8>>, fs: Map<Seq<char>, Seq<u8>>, n: int) -> bool {
    &&& forall|a: int, b: int| 0 <= a < b < n ==> #[trigger] entries[a].path@ != #[trigger] entries[b].path@
    &&& forall|k: int| 0 <= k < n ==> ((#[trigger] entries[k]).backup is Some <==> before.dom().contains(entries[k].path@))
    &&& forall|k: int| 0 <= k < n && (#[trigger] entries[k]).backup is Some ==> {
        &&& fs.dom().contains(entries[k].backup->0@)
        &&& fs[entries[k].backup->0@] == before[entries[k].path@]
    }
    &&& forall|k: int, j: int| 0 <= k < n && 0 <= j < n && (#[trigger] entries[k]).backup is Some
        ==> entries[k].backup->0@ != (#[trigger] entries[j]).path@
}

#[verifier::spinoff_prover]
proof fn lemma_rollback_from(
    entries: Seq<ProfileBackupEntry>,
    present: Seq<bool>,
    is_file: Seq<bool>,
    i: int,
    fs: Map<Seq<char>, Seq<u8>>,
    before: Map<Seq<char>, Seq<u8>>,
)
    requires
        -1 <= i < entries.len(),
        present.len() == entries.len(),
        is_file.len() == entries.len(),
        captured_from(entries, before, fs, i + 1),
        forall|k: int| 0 <= k <= i ==> #[trigger] present[k] == is_file[k],
        forall|k: int| 0 <= k <= i ==> #[trigger] is_file[k] == fs.dom().contains(entries[k].path@),
    ensures
        rollback_from(entries, present, is_file, i).1 is None,
        ({
            let out = apply_file_steps(fs, rollback_from(entries, present, is_file, i).0);
            &&& forall|k: int| 0 <= k <= i ==> {
                &&& out.dom().contains((#[trigger] entries[k]).path@) == before.dom().contains(entries[k].path@)
                &&& before.dom().contains(entries[k].path@) ==> out[entries[k].path@] == before[entries[k].path@]
            }
            &&& forall|p: Seq<char>| (forall|k: int| 0 <= k <= i ==> (#[trigger] entries[k]).path@ != p) ==> {
                &&& #[trigger] out.dom().contains(p) == fs.dom().contains(p)
                &&& fs.dom().contains(p) ==> out[p] == fs[p]
            }
        }),
    decreases i + 1,
{
    if i >= 0 {
        let e = entries[i];
        let path = e.path@;
        let rest = rollback_from(entries, present, is_file, i - 1);
        let fs2 = match e.backup {
            Some(b) => fs.insert(path, fs[b@]),
            None => if is_file[i] {
                fs.remove(path)
            } else {
                fs
            },
        };
        assert forall|p: Seq<char>| p != path implies #[trigger] fs2.dom().contains(p) == fs.dom().contains(p)
            && (fs.dom().contains(p) ==> fs2[p] == fs[p]) by {}
        assert(captured_from(entries, before, fs2, i)) by {
            assert forall|k: int| 0 <= k < i && (#[trigger] entries[k]).backup is Some implies {
                &&& fs2.dom().contains(entries[k].backup->0@)
                &&& fs2[entries[k].backup->0@] == before[entries[k].path@]
            } by {
                assert(entries[k].backup->0@ != entries[i].path@);
            }
        }
        assert forall|k: int| 0 <= k <= i - 1 implies #[trigger] is_file[k] == fs2.dom().contains(entries[k].path@) by {
            assert(entries[k].path@ != entries[i].path@);
        }
        lemma_rollback_from(entries, present, is_file, i - 1, fs2, before);
        let out = apply_file_steps(fs2, rest.0);
        match e.backup {
            Some(b) => {
                let step = FileStepView::Copy(b@, path);
                assert((seq![step] + rest.0).drop_first() =~= rest.0);
                assert(crate::restore::apply_file_step(fs, step) == fs2);
                assert(fs.dom().contains(b@));
            },
            None => {
                if is_file[i] {
                    let step = FileStepView::RemoveIfFile(path);
                    assert((seq![step] + rest.0).drop_first() =~= rest.0);
                    assert(crate::restore::apply_file_step(fs, step) == fs2);
                } else {
                    assert(!present[i]);
                }
            },
        }
        assert(forall|k: int| 0 <= k <= i - 1 ==> (#[trigger] entries[k]).path@ != path);
        assert forall|k: int| 0 <= k <= i implies {
            &&& out.dom().contains((#[trigger] entries[k]).path@) == before.dom().contains(entries[k].path@)
            &&& before.dom().contains(entries[k].path@) ==> out[entries[k].path@] == before[entries[k].path@]
        } by {
            if k == i {
                assert(forall|j: int| 0 <= j <= i - 1 ==> (#[trigger] entries[j]).path@ != path);
            }
        }
        assert forall|p: Seq<char>| (forall|k: int| 0 <= k <= i ==> (#[trigger] entries[k]).path@ != p) implies {
            &&& #[trigger] out.dom().contains(p) == fs.dom().contains(p)
            &&& fs.dom().contains(p) ==> out[p] == fs[p]
        } by {
            assert(entries[i].path@ != p);
            assert(forall|k: int| 0 <= k <= i - 1 ==> (#[trigger] entries[k]).path@ != p);
        }
    }
}

/// Rolling a switch back puts every captured path back as it stood before
/// the capture: a file that was there has its old content again, and a file
/// the switch created is removed; every path the capture did not record is
/// left as the switch left it. (Here each path is a regular file or absent,
/// so the rollback meets nothing it must refuse.)
pub proof fn lemma_rollback_restores_captured_files(
    entries: Seq<ProfileBackupEntry>,
    before: Map<Seq<char>, Seq<u8>>,
    after: Map<Seq<char>, Seq<u8>>,
)
    requires
        captured_from(entries, before, after, entries.len() as int),
    ensures
        ({
            let present = Seq::new(entries.len(), |k: int| after.dom().contains(entries[k].path@));
            let (steps, refusal) = rollback_from(entries, present, present, entries.len() - 1);
            let out = apply_file_steps(after, steps);
            &&& refusal is None
            &&& forall|k: int| 0 <= k < entries.len() ==> {
                &&& out.dom().contains((#[trigger] entries[k]).path@) == before.dom().contains(entries[k].path@)
                &&& before.dom().contains(entries[k].path@) ==> out[entries[k].path@] == before[entries[k].path@]
            }
            &&& forall|p: Seq<char>| (forall|k: int| 0 <= k < entries.len() ==> (#[trigger] entries[k]).path@ != p) ==> {
                &&& #[trigger] out.dom().contains(p) == after.dom().contains(p)
                &&& after.dom().contains(p) ==> out[p] == after[p]
            }
        }),
{
    let present = Seq::new(entries.len(), |k: int| after.dom().contains(entries[k].path@));
    lemma_rollback_from(entries, present, present, entries.len() - 1, after, before);
}

// ----------------------------------------------------------------------
// What a switch does to the slot's bank files
// ----------------------------------------------------------------------

/// `a` and `b` agree at `p`: both lack it, or both hold the same bytes there.
pub open spec fn agrees_at(a: Map<Seq<char>, Seq<u8>>, b: Map<Seq<char>, Seq<u8>>, p: Seq<char>) -> bool {
    &&& a.dom().contains(p) == b.dom().contains(p)
    &&& a.dom().contains(p) ==> a[p] == b[p]
}

/// The one path a switch step may change.
pub open spec fn switch_written(s: SwitchStepView) -> Seq<char> {
    match s {
        SwitchStepView::RemoveFile(p) => p,
        SwitchStepView::CopyIfFile(_, to) => to,
        SwitchStepView::Copy(_, to) => to,
        SwitchStepView::WriteResumeManifest(p) => p,
        SwitchStepView::UpdateProgress(live, _) => live,
    }
}

/// What carrying out one step does to the files, by path: every other path
/// keeps its bytes; a removal leaves no file; a copy writes the source's
/// bytes (a conditional copy only when the source is there). What the
/// manifest and progress steps write is left open.
pub open spec fn switch_step_effect(fs: Map<Seq<char>, Seq<u8>>, s: SwitchStepView, next: Map<Seq<char>, Seq<u8>>) -> bool {
    &&& forall|p: Seq<char>| p != switch_written(s) ==> #[trigger] agrees_at(fs, next, p)
    &&& match s {
        SwitchStepView::RemoveFile(p) => !next.dom().contains(p),
        SwitchStepView::CopyIfFile(from, to) => if fs.dom().contains(from) {
            next.dom().contains(to) && next[to] == fs[from]
        } else {
            agrees_at(fs, next, to)
        },
        SwitchStepView::Copy(from, to) => next.dom().contains(to) && next[to] == fs[from],
        _ => true,
    }
}

/// `states` are the files before each step of `steps` and after the last.
pub open spec fn switch_run(states: Seq<Map<Seq<char>, Seq<u8>>>, steps: Seq<SwitchStepView>) -> bool {
    &&& states.len() == steps.len() + 1
    &&& forall|k: int| 0 <= k < steps.len() ==> switch_step_effect(states[k], #[trigger] steps[k], states[k + 1])
}

/// The steps of a switch plan with no refusal in it.
pub open spec fn plan_steps(xs: Seq<Result<SwitchStepView, Seq<char>>>) -> Seq<SwitchStepView> {
    Seq::new(xs.len(), |k: int| xs[k]->Ok_0)
}

/// One of the slot's bank files in the profile or in either store.
pub open spec fn is_bank_file(profile: Seq<char>, source_store: Seq<char>, target_store: Seq<char>, spec: CampaignProfileSpec, p: Seq<char>) -> bool {
    exists|i: int|
        0 <= i < spec.banks@.len() && (p == #[trigger] bank_paths(profile, spec)[i] || p == bank_paths(source_store, spec)[i]
            || p == bank_paths(target_store, spec)[i])
}

/// The bank files of the profile and of the two stores are all different.
pub open spec fn banks_apart(profile: Seq<char>, source_store: Seq<char>, target_store: Seq<char>, spec: CampaignProfileSpec) -> bool {
    let n = spec.banks@.len() as int;
    &&& forall|i: int, j: int|
        0 <= i < n && 0 <= j < n && i != j ==> #[trigger] bank_paths(profile, spec)[i] != #[trigger] bank_paths(profile, spec)[j]
    &&& forall|i: int, j: int|
        0 <= i < n && 0 <= j < n && i != j ==> #[trigger] bank_paths(source_store, spec)[i] != #[trigger] bank_paths(
            source_store,
            spec,
        )[j]
    &&& forall|i: int, j: int|
        0 <= i < n && 0 <= j < n && i != j ==> #[trigger] bank_paths(target_store, spec)[i] != #[trigger] bank_paths(
            target_store,
            spec,
        )[j]
    &&& forall|i: int, j: int|
        0 <= i < n && 0 <= j < n ==> #[trigger] bank_paths(profile, spec)[i] != #[trigger] bank_paths(source_store, spec)[j]
    &&& forall|i: int, j: int|
        0 <= i < n && 0 <= j < n ==> #[trigger] bank_paths(profile, spec)[i] != #[trigger] bank_paths(target_store, spec)[j]
    &&& forall|i: int, j: int|
        0 <= i < n && 0 <= j < n ==> #[trigger] bank_paths(source_store, spec)[i] != #[trigger] bank_paths(target_store, spec)[j]
}

/// No progress, manifest or save file the switch writes is a bank file.
pub open spec fn others_apart(
    profile: Seq<char>,
    source_store: Seq<char>,
    target_store: Seq<char>,
    spec: CampaignProfileSpec,
    saves: SwitchSaves,
) -> bool {
    let bank = |p: Seq<char>| is_bank_file(profile, source_store, target_store, spec, p);
    &&& !bank(progress_file(profile))
    &&& !bank(progress_file(source_store))
    &&& !bank(resume_manifest_file(source_store))
    &&& forall|k: int| 0 <= k < saves.source_store_saves@.len() ==> !bank(#[trigger] saves.source_store_saves@[k]@)
    &&& forall|k: int| 0 <= k < saves.source_saves@.len() ==> !bank(#[trigger] saves.source_saves@[k]@)
    &&& forall|k: int| 0 <= k < saves.target_saves@.len() ==> !bank(#[trigger] saves.target_saves@[k]@)
    &&& forall|k: int|
        0 <= k < saves.source_saves@.len() ==> (relative_under(profile, #[trigger] saves.source_saves@[k]@) matches Some(rel)
            ==> !bank(join_path(source_store, rel)))
    &&& forall|k: int|
        0 <= k < saves.target_store_saves@.len() ==> (relative_under(target_store, #[trigger] saves.target_store_saves@[k]@)
            matches Some(rel) ==> !bank(join_path(profile, rel)))
}

proof fn lemma_agrees_trans(a: Map<Seq<char>, Seq<u8>>, b: Map<Seq<char>, Seq<u8>>, c: Map<Seq<char>, Seq<u8>>, p: Seq<char>)
    requires
        agrees_at(a, b, p),
        agrees_at(b, c, p),
    ensures
        agrees_at(a, c, p),
{
}

/// A path no step in `lo..hi` writes keeps its bytes over those steps.
proof fn lemma_switch_frame(
    states: Seq<Map<Seq<char>, Seq<u8>>>,
    steps: Seq<SwitchStepView>,
    lo: int,
    hi: int,
    p: Seq<char>,
)
    requires
        switch_run(states, steps),
        0 <= lo <= hi <= steps.len(),
        forall|k: int| lo <= k < hi ==> switch_written(#[trigger] steps[k]) != p,
    ensures
        agrees_at(states[lo], states[hi], p),
    decreases hi - lo,
{
    if lo < hi {
        lemma_switch_frame(states, steps, lo, hi - 1, p);
        assert(switch_written(steps[hi - 1]) != p);
        assert(switch_step_effect(states[hi - 1], steps[hi - 1], states[hi]));
        assert(agrees_at(states[hi - 1], states[hi], p));
        lemma_agrees_trans(states[lo], states[hi - 1], states[hi], p);
    }
}

proof fn lemma_concat_left<T>(x: Seq<T>, y: Seq<T>, k: int)
    requires
        0 <= k < x.len(),
    ensures
        (x + y)[k] == x[k],
{
}

proof fn lemma_concat_right<T>(x: Seq<T>, y: Seq<T>, k: int)
    requires
        x.len() <= k < x.len() + y.len(),
    ensures
        (x + y)[k] == y[k - x.len()],
{
}
/// Where the bank steps of a switch within one slot stand in its plan: the
/// copies of the live banks into the source store start at `.0`, the second
/// removal of the live banks at `.2`, and the copies from the target store
/// at `.3` (`.1` is the first removal).
pub open spec fn bank_step_offsets(saves: SwitchSaves, writes_manifest: bool, nb: int) -> (int, int, int, int) {
    let a = saves.source_store_saves@.len() as int;
    let ns = saves.source_saves@.len() as int;
    let m: int = if writes_manifest { 1 } else { 0 };
    let nt = saves.target_saves@.len() as int;
    let c3 = a + 1;
    let g7 = c3 + nb + ns + m + ns;
    let g9 = g7 + nb + nt;
    (c3, g7, g9, g9 + nb)
}

/// Every step of a switch within one slot either is one of its bank steps
/// or writes a file that is not a bank file.
proof fn lemma_switch_step_kinds(
    profile: Seq<char>,
    source_store: Seq<char>,
    target_store: Seq<char>,
    spec: CampaignProfileSpec,
    saves: SwitchSaves,
    writes_manifest: bool,
    k: int,
)
    requires
        0 <= k < switch_plan_spec(profile, source_store, target_store, spec, spec, saves, writes_manifest).len(),
        switch_plan_spec(profile, source_store, target_store, spec, spec, saves, writes_manifest)[k] is Ok,
        others_apart(profile, source_store, target_store, spec, saves),
    ensures
        ({
            let st = switch_plan_spec(profile, source_store, target_store, spec, spec, saves, writes_manifest)[k]->Ok_0;
            let nb = spec.banks@.len() as int;
            let o = bank_step_offsets(saves, writes_manifest, nb);
            let b = bank_paths(profile, spec);
            let s = bank_paths(source_store, spec);
            let t = bank_paths(target_store, spec);
            ||| (o.0 <= k < o.0 + nb && st == SwitchStepView::CopyIfFile(b[k - o.0], s[k - o.0]))
            ||| (o.1 <= k < o.1 + nb && st == SwitchStepView::RemoveFile(b[k - o.1]))
            ||| (o.2 <= k < o.2 + nb && st == SwitchStepView::RemoveFile(b[k - o.2]))
            ||| (o.3 <= k < o.3 + nb && st == SwitchStepView::CopyIfFile(t[k - o.3], b[k - o.3]))
            ||| !is_bank_file(profile, source_store, target_store, spec, switch_written(st))
        }),
{
    let xs = switch_plan_spec(profile, source_store, target_store, spec, spec, saves, writes_manifest);
    let b = bank_paths(profile, spec);
    let s1 = removal_steps(views(saves.source_store_saves@));
    let s2 = seq![Ok::<SwitchStepView, Seq<char>>(SwitchStepView::CopyIfFile(progress_file(profile), progress_file(source_store)))];
    let s3 = conditional_copies(b, bank_paths(source_store, spec));
    let s4 = relocated_copies(views(saves.source_saves@), profile, source_store, escaped_profile_error());
    let s5 = (if writes_manifest { seq![Ok::<SwitchStepView, Seq<char>>(SwitchStepView::WriteResumeManifest(resume_manifest_file(source_store)))] } else { Seq::empty() });
    let s6 = removal_steps(views(saves.source_saves@));
    let s7 = removal_steps(b);
    let s8 = removal_steps(views(saves.target_saves@));
    let s9 = removal_steps(b);
    let s10 = conditional_copies(bank_paths(target_store, spec), b);
    let s11 = relocated_copies(views(saves.target_store_saves@), target_store, profile, escaped_store_error());
    let s12 = seq![Ok::<SwitchStepView, Seq<char>>(SwitchStepView::UpdateProgress(progress_file(profile), progress_file(target_store)))];
    let p1 = s1;
    let p2 = p1 + s2;
    let p3 = p2 + s3;
    let p4 = p3 + s4;
    let p5 = p4 + s5;
    let p6 = p5 + s6;
    let p7 = p6 + s7;
    let p8 = p7 + s8;
    let p9 = p8 + s9;
    let p10 = p9 + s10;
    let p11 = p10 + s11;
    let p12 = p11 + s12;
    assert(xs == p12);
    let nb = spec.banks@.len() as int;
    assert(b.len() == nb);
    assert(bank_paths(source_store, spec).len() == nb);
    assert(bank_paths(target_store, spec).len() == nb);
    assert(s3.len() == nb);
    assert(s10.len() == nb);
    if k < p1.len() {
        lemma_concat_left(p11, s12, k);
        lemma_concat_left(p10, s11, k);
        lemma_concat_left(p9, s10, k);
        lemma_concat_left(p8, s9, k);
        lemma_concat_left(p7, s8, k);
        lemma_concat_left(p6, s7, k);
        lemma_concat_left(p5, s6, k);
        lemma_concat_left(p4, s5, k);
        lemma_concat_left(p3, s4, k);
        lemma_concat_left(p2, s3, k);
        lemma_concat_left(p1, s2, k);
        assert(xs[k] == s1[k]);
        assert(saves.source_store_saves@[k]@ == views(saves.source_store_saves@)[k]);
    } else if k < p2.len() {
        lemma_concat_left(p11, s12, k);
        lemma_concat_left(p10, s11, k);
        lemma_concat_left(p9, s10, k);
        lemma_concat_left(p8, s9, k);
        lemma_concat_left(p7, s8, k);
        lemma_concat_left(p6, s7, k);
        lemma_concat_left(p5, s6, k);
        lemma_concat_left(p4, s5, k);
        lemma_concat_left(p3, s4, k);
        lemma_concat_left(p2, s3, k);
        lemma_concat_right(p1, s2, k);
        assert(xs[k] == s2[k - p1.len()]);
    } else if k < p3.len() {
        lemma_concat_left(p11, s12, k);
        lemma_concat_left(p10, s11, k);
        lemma_concat_left(p9, s10, k);
        lemma_concat_left(p8, s9, k);
        lemma_concat_left(p7, s8, k);
        lemma_concat_left(p6, s7, k);
        lemma_concat_left(p5, s6, k);
        lemma_concat_left(p4, s5, k);
        lemma_concat_left(p3, s4, k);
        lemma_concat_right(p2, s3, k);
        assert(xs[k] == s3[k - p2.len()]);
    } else if k < p4.len() {
        lemma_concat_left(p11, s12, k);
        lemma_concat_left(p10, s11, k);
        lemma_concat_left(p9, s10, k);
        lemma_concat_left(p8, s9, k);
        lemma_concat_left(p7, s8, k);
        lemma_concat_left(p6, s7, k);
        lemma_concat_left(p5, s6, k);
        lemma_concat_left(p4, s5, k);
        lemma_concat_right(p3, s4, k);
        assert(xs[k] == s4[k - p3.len()]);
        assert(saves.source_saves@[k - p3.len()]@ == views(saves.source_saves@)[k - p3.len()]);
    } else if k < p5.len() {
        lemma_concat_left(p11, s12, k);
        lemma_concat_left(p10, s11, k);
        lemma_concat_left(p9, s10, k);
        lemma_concat_left(p8, s9, k);
        lemma_concat_left(p7, s8, k);
        lemma_concat_left(p6, s7, k);
        lemma_concat_left(p5, s6, k);
        lemma_concat_right(p4, s5, k);
        assert(xs[k] == s5[k - p4.len()]);
    } else if k < p6.len() {
        lemma_concat_left(p11, s12, k);
        lemma_concat_left(p10, s11, k);
        lemma_concat_left(p9, s10, k);
        lemma_concat_left(p8, s9, k);
        lemma_concat_left(p7, s8, k);
        lemma_concat_left(p6, s7, k);
        lemma_concat_right(p5, s6, k);
        assert(xs[k] == s6[k - p5.len()]);
        assert(saves.source_saves@[k - p5.len()]@ == views(saves.source_saves@)[k - p5.len()]);
    } else if k < p7.len() {
        lemma_concat_left(p11, s12, k);
        lemma_concat_left(p10, s11, k);
        lemma_concat_left(p9, s10, k);
        lemma_concat_left(p8, s9, k);
        lemma_concat_left(p7, s8, k);
        lemma_concat_right(p6, s7, k);
        assert(xs[k] == s7[k - p6.len()]);
    } else if k < p8.len() {
        lemma_concat_left(p11, s12, k);
        lemma_concat_left(p10, s11, k);
        lemma_concat_left(p9, s10, k);
        lemma_concat_left(p8, s9, k);
        lemma_concat_right(p7, s8, k);
        assert(xs[k] == s8[k - p7.len()]);
        assert(saves.target_saves@[k - p7.len()]@ == views(saves.target_saves@)[k - p7.len()]);
    } else if k < p9.len() {
        lemma_concat_left(p11, s12, k);
        lemma_concat_left(p10, s11, k);
        lemma_concat_left(p9, s10, k);
        lemma_concat_right(p8, s9, k);
        assert(xs[k] == s9[k - p8.len()]);
    } else if k < p10.len() {
        lemma_concat_left(p11, s12, k);
        lemma_concat_left(p10, s11, k);
        lemma_concat_right(p9, s10, k);
        assert(xs[k] == s10[k - p9.len()]);
    } else if k < p11.len() {
        lemma_concat_left(p11, s12, k);
        lemma_concat_right(p10, s11, k);
        assert(xs[k] == s11[k - p10.len()]);
        assert(saves.target_store_saves@[k - p10.len()]@ == views(saves.target_store_saves@)[k - p10.len()]);
    } else {
        lemma_concat_right(p11, s12, k);
        assert(xs[k] == s12[k - p11.len()]);
    }
}


/// The length of a switch plan within one slot.
proof fn lemma_switch_plan_len(
    profile: Seq<char>,
    source_store: Seq<char>,
    target_store: Seq<char>,
    spec: CampaignProfileSpec,
    saves: SwitchSaves,
    writes_manifest: bool,
)
    ensures
        switch_plan_spec(profile, source_store, target_store, spec, spec, saves, writes_manifest).len()
            == bank_step_offsets(saves, writes_manifest, spec.banks@.len() as int).3 + spec.banks@.len()
            + saves.target_store_saves@.len() + 1,
{
}

/// A switch within one slot moves its bank files: each bank the profile
/// held is copied into the source campaign's store (a store copy whose live
/// bank was missing is left as it was), and afterwards each live bank holds
/// what the target campaign's store held, or is gone where the store had
/// none. The bank files of the profile and of the two stores are distinct,
/// and no save, progress or manifest file of the switch is a bank file.
pub proof fn lemma_switch_moves_banks(
    profile: Seq<char>,
    source_store: Seq<char>,
    target_store: Seq<char>,
    spec: CampaignProfileSpec,
    saves: SwitchSaves,
    writes_manifest: bool,
    states: Seq<Map<Seq<char>, Seq<u8>>>,
)
    requires
        forall|k: int|
            0 <= k < switch_plan_spec(profile, source_store, target_store, spec, spec, saves, writes_manifest).len()
                ==> (#[trigger] switch_plan_spec(profile, source_store, target_store, spec, spec, saves, writes_manifest)[k]) is Ok,
        switch_run(states, plan_steps(switch_plan_spec(profile, source_store, target_store, spec, spec, saves, writes_manifest))),
        banks_apart(profile, source_store, target_store, spec),
        others_apart(profile, source_store, target_store, spec, saves),
    ensures
        forall|i: int|
            0 <= i < spec.banks@.len() ==> {
                &&& states[states.len() - 1].dom().contains(#[trigger] bank_paths(profile, spec)[i])
                    == states[0].dom().contains(bank_paths(target_store, spec)[i])
                &&& states[0].dom().contains(bank_paths(target_store, spec)[i]) ==> states[states.len() - 1][bank_paths(
                    profile,
                    spec,
                )[i]] == states[0][bank_paths(target_store, spec)[i]]
                &&& states[0].dom().contains(bank_paths(profile, spec)[i]) ==> states[states.len() - 1].dom().contains(
                    bank_paths(source_store, spec)[i],
                ) && states[states.len() - 1][bank_paths(source_store, spec)[i]] == states[0][bank_paths(profile, spec)[i]]
                &&& !states[0].dom().contains(bank_paths(profile, spec)[i]) ==> agrees_at(
                    states[0],
                    states[states.len() - 1],
                    bank_paths(source_store, spec)[i],
                )
                &&& agrees_at(states[0], states[states.len() - 1], bank_paths(target_store, spec)[i])
            },
{
    let xs = switch_plan_spec(profile, source_store, target_store, spec, spec, saves, writes_manifest);
    let steps = plan_steps(xs);
    let nb = spec.banks@.len() as int;
    let o = bank_step_offsets(saves, writes_manifest, nb);
    let b = bank_paths(profile, spec);
    let s = bank_paths(source_store, spec);
    let t = bank_paths(target_store, spec);
    let n = steps.len() as int;
    assert(states.len() - 1 == n);
    lemma_switch_plan_len(profile, source_store, target_store, spec, saves, writes_manifest);
    assert forall|k: int| 0 <= k < n implies {
        ||| (o.0 <= k < o.0 + nb && #[trigger] steps[k] == SwitchStepView::CopyIfFile(b[k - o.0], s[k - o.0]))
        ||| (o.1 <= k < o.1 + nb && steps[k] == SwitchStepView::RemoveFile(b[k - o.1]))
        ||| (o.2 <= k < o.2 + nb && steps[k] == SwitchStepView::RemoveFile(b[k - o.2]))
        ||| (o.3 <= k < o.3 + nb && steps[k] == SwitchStepView::CopyIfFile(t[k - o.3], b[k - o.3]))
        ||| !is_bank_file(profile, source_store, target_store, spec, switch_written(steps[k]))
    } by {
        assert(xs[k] is Ok);
        lemma_switch_step_kinds(profile, source_store, target_store, spec, saves, writes_manifest, k);
    }
    assert forall|i: int| 0 <= i < nb implies {
        &&& states[n].dom().contains(#[trigger] b[i]) == states[0].dom().contains(t[i])
        &&& states[0].dom().contains(t[i]) ==> states[n][b[i]] == states[0][t[i]]
        &&& states[0].dom().contains(b[i]) ==> states[n].dom().contains(s[i]) && states[n][s[i]] == states[0][b[i]]
        &&& !states[0].dom().contains(b[i]) ==> agrees_at(states[0], states[n], s[i])
        &&& agrees_at(states[0], states[n], t[i])
    } by {
        assert(is_bank_file(profile, source_store, target_store, spec, b[i]));
        assert(is_bank_file(profile, source_store, target_store, spec, s[i]));
        assert(is_bank_file(profile, source_store, target_store, spec, t[i]));
        // t[i] is never written.
        assert forall|k: int| 0 <= k < n implies switch_written(#[trigger] steps[k]) != t[i] by {
            if o.0 <= k < o.0 + nb {
                assert(s[k - o.0] != t[i]);
            } else if o.3 <= k < o.3 + nb {
                assert(b[k - o.3] != t[i]);
            } else if o.1 <= k < o.1 + nb {
                assert(b[k - o.1] != t[i]);
            } else if o.2 <= k < o.2 + nb {
                assert(b[k - o.2] != t[i]);
            }
        }
        lemma_switch_frame(states, steps, 0, n, t[i]);
        // The live bank reaches the copy into the source store unchanged.
        let c = o.0 + i;
        assert forall|k: int| 0 <= k < c implies switch_written(#[trigger] steps[k]) != b[i] by {
            if o.0 <= k < o.0 + nb {
                assert(s[k - o.0] != b[i]);
            }
        }
        lemma_switch_frame(states, steps, 0, c, b[i]);
        assert(steps[c] == SwitchStepView::CopyIfFile(b[i], s[i])) by {
            if !(o.0 <= c < o.0 + nb && steps[c] == SwitchStepView::CopyIfFile(b[c - o.0], s[c - o.0])) {
                assert(is_bank_file(profile, source_store, target_store, spec, switch_written(steps[c])) || steps[c]
                    == SwitchStepView::CopyIfFile(b[i], s[i]));
            }
        }
        assert forall|k: int| 0 <= k < c implies switch_written(#[trigger] steps[k]) != s[i] by {
            if o.0 <= k < o.0 + nb {
                assert(s[k - o.0] != s[i]);
            } else if o.1 <= k < o.1 + nb {
                assert(b[k - o.1] != s[i]);
            } else if o.2 <= k < o.2 + nb {
                assert(b[k - o.2] != s[i]);
            } else if o.3 <= k < o.3 + nb {
                assert(b[k - o.3] != s[i]);
            }
        }
        lemma_switch_frame(states, steps, 0, c, s[i]);
        assert(switch_step_effect(states[c], steps[c], states[c + 1]));
        assert forall|k: int| c + 1 <= k < n implies switch_written(#[trigger] steps[k]) != s[i] by {
            if o.0 <= k < o.0 + nb {
                assert(s[k - o.0] != s[i]);
            } else if o.1 <= k < o.1 + nb {
                assert(b[k - o.1] != s[i]);
            } else if o.2 <= k < o.2 + nb {
                assert(b[k - o.2] != s[i]);
            } else if o.3 <= k < o.3 + nb {
                assert(b[k - o.3] != s[i]);
            }
        }
        lemma_switch_frame(states, steps, c + 1, n, s[i]);
        if !states[0].dom().contains(b[i]) {
            lemma_agrees_trans(states[0], states[c], states[c + 1], s[i]);
            lemma_agrees_trans(states[0], states[c + 1], states[n], s[i]);
        }
        // The second removal, then the copy from the target store.
        let r = o.2 + i;
        let d = o.3 + i;
        assert(steps[r] == SwitchStepView::RemoveFile(b[i])) by {
            if !(o.2 <= r < o.2 + nb && steps[r] == SwitchStepView::RemoveFile(b[r - o.2])) {
                assert(is_bank_file(profile, source_store, target_store, spec, switch_written(steps[r])) || steps[r]
                    == SwitchStepView::RemoveFile(b[i]));
            }
        }
        assert(steps[d] == SwitchStepView::CopyIfFile(t[i], b[i])) by {
            if !(o.3 <= d < o.3 + nb && steps[d] == SwitchStepView::CopyIfFile(t[d - o.3], b[d - o.3])) {
                assert(is_bank_file(profile, source_store, target_store, spec, switch_written(steps[d])) || steps[d]
                    == SwitchStepView::CopyIfFile(t[i], b[i]));
            }
        }
        assert(switch_step_effect(states[r], steps[r], states[r + 1]));
        assert forall|k: int| r + 1 <= k < d implies switch_written(#[trigger] steps[k]) != b[i] by {
            if o.2 <= k < o.2 + nb {
                assert(b[k - o.2] != b[i]);
            } else if o.3 <= k < o.3 + nb {
                assert(b[k - o.3] != b[i]);
            }
        }
        lemma_switch_frame(states, steps, r + 1, d, b[i]);
        lemma_switch_frame(states, steps, 0, d, t[i]);
        assert(switch_step_effect(states[d], steps[d], states[d + 1]));
        assert forall|k: int| d + 1 <= k < n implies switch_written(#[trigger] steps[k]) != b[i] by {
            if o.3 <= k < o.3 + nb {
                assert(b[k - o.3] != b[i]);
            }
        }
        lemma_switch_frame(states, steps, d + 1, n, b[i]);
    }
}


proof fn lemma_banks_apart_swapped(profile: Seq<char>, store_a: Seq<char>, store_b: Seq<char>, spec: CampaignProfileSpec)
    requires
        banks_apart(profile, store_a, store_b, spec),
    ensures
        banks_apart(profile, store_b, store_a, spec),
{
    let n = spec.banks@.len() as int;
    assert forall|i: int, j: int| 0 <= i < n && 0 <= j < n implies #[trigger] bank_paths(store_b, spec)[i]
        != #[trigger] bank_paths(store_a, spec)[j] by {
        assert(bank_paths(store_a, spec)[j] != bank_paths(store_b, spec)[i]);
    }
}

/// Switching a slot from one campaign to another and back returns its bank
/// files: every bank the profile held before the first switch holds the
/// same bytes after the second, and every bank the other campaign's store
/// held is back in that store.
pub proof fn lemma_switch_round_trip_keeps_banks(
    profile: Seq<char>,
    first_store: Seq<char>,
    other_store: Seq<char>,
    spec: CampaignProfileSpec,
    there: SwitchSaves,
    there_manifest: bool,
    back: SwitchSaves,
    back_manifest: bool,
    going: Seq<Map<Seq<char>, Seq<u8>>>,
    returning: Seq<Map<Seq<char>, Seq<u8>>>,
)
    requires
        forall|k: int|
            0 <= k < switch_plan_spec(profile, first_store, other_store, spec, spec, there, there_manifest).len()
                ==> (#[trigger] switch_plan_spec(profile, first_store, other_store, spec, spec, there, there_manifest)[k]) is Ok,
        forall|k: int|
            0 <= k < switch_plan_spec(profile, other_store, first_store, spec, spec, back, back_manifest).len()
                ==> (#[trigger] switch_plan_spec(profile, other_store, first_store, spec, spec, back, back_manifest)[k]) is Ok,
        switch_run(going, plan_steps(switch_plan_spec(profile, first_store, other_store, spec, spec, there, there_manifest))),
        switch_run(returning, plan_steps(switch_plan_spec(profile, other_store, first_store, spec, spec, back, back_manifest))),
        returning[0] == going[going.len() - 1],
        banks_apart(profile, first_store, other_store, spec),
        others_apart(profile, first_store, other_store, spec, there),
        others_apart(profile, other_store, first_store, spec, back),
    ensures
        forall|i: int|
            0 <= i < spec.banks@.len() && going[0].dom().contains(#[trigger] bank_paths(profile, spec)[i]) ==> {
                &&& returning[returning.len() - 1].dom().contains(bank_paths(profile, spec)[i])
                &&& returning[returning.len() - 1][bank_paths(profile, spec)[i]] == going[0][bank_paths(profile, spec)[i]]
            },
        forall|i: int|
            0 <= i < spec.banks@.len() && going[0].dom().contains(#[trigger] bank_paths(other_store, spec)[i]) ==> {
                &&& returning[returning.len() - 1].dom().contains(bank_paths(other_store, spec)[i])
                &&& returning[returning.len() - 1][bank_paths(other_store, spec)[i]] == going[0][bank_paths(other_store, spec)[i]]
            },
{
    lemma_banks_apart_swapped(profile, first_store, other_store, spec);
    lemma_switch_moves_banks(profile, first_store, other_store, spec, there, there_manifest, going);
    lemma_switch_moves_banks(profile, other_store, first_store, spec, back, back_manifest, returning);
    let mid = going[going.len() - 1];
    let end = returning[returning.len() - 1];
    let b = bank_paths(profile, spec);
    let f = bank_paths(first_store, spec);
    let o = bank_paths(other_store, spec);
    assert forall|i: int| 0 <= i < spec.banks@.len() && going[0].dom().contains(#[trigger] b[i]) implies {
        &&& end.dom().contains(b[i])
        &&& end[b[i]] == going[0][b[i]]
    } by {
        assert(mid.dom().contains(f[i]) && mid[f[i]] == going[0][b[i]]);
        assert(returning[0].dom().contains(f[i]));
        assert(end.dom().contains(b[i]) == returning[0].dom().contains(f[i]));
    }
    assert forall|i: int| 0 <= i < spec.banks@.len() && going[0].dom().contains(#[trigger] o[i]) implies {
        &&& end.dom().contains(o[i])
        &&& end[o[i]] == going[0][o[i]]
    } by {
        assert(mid.dom().contains(b[i]) == going[0].dom().contains(o[i]));
        assert(mid[b[i]] == going[0][o[i]]);
        assert(returning[0].dom().contains(b[i]));
        assert(end.dom().contains(o[i]) && end[o[i]] == returning[0][b[i]]);
    }
}


/// A switch plan carried out without a refusal runs every step of the plan:
/// its steps are the plan's, in order.
pub proof fn lemma_unrefused_plan_runs_every_step(xs: Seq<Result<SwitchStepView, Seq<char>>>, i: int)
    requires
        0 <= i <= xs.len(),
        cut_from(xs, i).1 is None,
    ensures
        forall|k: int| i <= k < xs.len() ==> (#[trigger] xs[k]) is Ok,
        cut_from(xs, i).0 == plan_steps(xs).skip(i),
    decreases xs.len() - i,
{
    if i < xs.len() {
        assert(xs[i] is Ok);
        lemma_unrefused_plan_runs_every_step(xs, i + 1);
        assert(cut_from(xs, i).0 =~= plan_steps(xs).skip(i));
    } else {
        assert(cut_from(xs, i).0 =~= plan_steps(xs).skip(i));
    }
}

} // verus!
