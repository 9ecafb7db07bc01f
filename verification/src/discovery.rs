//! Finding a StarCraft II installation: where to look, what a game root
//! looks like, and the checks on the root CCM works in.

use vstd::prelude::*;
use crate::campaign_profile::{part_views, path_parts, path_parts_exec};
use crate::journal::PathKind;
use crate::order::{insertion_sort, is_sorted, stable_sort_of, ListOrder};
use crate::resume::{lemma_parts_lt_laws, lemma_parts_lt_total, parts_lt, parts_lt_exec};
use crate::paths::{join_path, join_path_exec};
use crate::text::{chars_eq, chars_of, concat_chars, owned, string_from_chars, views};

verus! {

// ----------------------------------------------------------------------
// Where to look
// ----------------------------------------------------------------------

fn joined(base: &str, rel: &str) -> (r: String)
    ensures
        r@ == join_path(base@, rel@),
{
    string_from_chars(&join_path_exec(&chars_of(base), &chars_of(rel)))
}

pub(crate) fn push_unique(out: &mut Vec<String>, x: String)
    ensures
        views(old(out)@).contains(x@) ==> views(final(out)@) == views(old(out)@),
        !views(old(out)@).contains(x@) ==> views(final(out)@) == views(old(out)@).push(x@),
{
    let xc = chars_of(x.as_str());
    let mut i: usize = 0;
    while i < out.len()
        invariant
            i <= out@.len(),
            xc@ == x@,
            forall|k: int| 0 <= k < i ==> #[trigger] views(out@)[k] != x@,
        decreases out.len() - i,
    {
        if chars_eq(&chars_of(out[i].as_str()), &xc) {
            proof {
                assert(views(out@)[i as int] == x@);
            }
            return;
        }
        i = i + 1;
    }
    let ghost before = views(out@);
    out.push(x);
    proof {
        assert(views(out@) =~= before.push(x@));
    }
}

/// `xs` with `x` added at the end unless it is already there.
pub open spec fn add_unique(xs: Seq<Seq<char>>, x: Seq<char>) -> Seq<Seq<char>> {
    if xs.contains(x) {
        xs
    } else {
        xs.push(x)
    }
}

pub open spec fn opt_view(o: Option<String>) -> Option<Seq<char>> {
    match o {
        Some(s) => Some(s@),
        None => None,
    }
}

/// Trailing `\` and `/` removed.
pub open spec fn trim_separators(s: Seq<char>) -> Seq<char>
    decreases s.len(),
{
    if s.len() > 0 && (s.last() == '\\' || s.last() == '/') {
        trim_separators(s.drop_last())
    } else {
        s
    }
}

fn trim_separators_exec(s: &[char]) -> (r: Vec<char>)
    ensures
        r@ == trim_separators(s@),
{
    let mut n: usize = s.len();
    proof {
        assert(s@.take(s@.len() as int) =~= s@);
    }
    while n > 0 && (s[n - 1] == '\\' || s[n - 1] == '/')
        invariant
            n <= s@.len(),
            trim_separators(s@) == trim_separators(s@.take(n as int)),
        decreases n,
    {
        proof {
            assert(s@.take(n as int).drop_last() =~= s@.take(n as int - 1));
        }
        n = n - 1;
    }
    proof {
        assert(s@.take(n as int).subrange(0, n as int) =~= s@.take(n as int));
    }
    let mut r: Vec<char> = Vec::new();
    let mut i: usize = 0;
    while i < n
        invariant
            i <= n,
            n <= s@.len(),
            r@ == s@.take(i as int),
        decreases n - i,
    {
        r.push(s[i]);
        proof {
            assert(s@.take(i as int + 1) =~= s@.take(i as int).push(s@[i as int]));
        }
        i = i + 1;
    }
    r
}

/// `windows_game_locations`, with paths joined by `/`: `StarCraft II` under
/// each Program Files directory (each once), two folders under the local
/// application data, and `Games/StarCraft II` at the system drive's root.
/// `xs` with `<base>/StarCraft II` added once, when there is a base.
pub open spec fn under_base(b: Option<Seq<char>>, xs: Seq<Seq<char>>) -> Seq<Seq<char>> {
    match b {
        Some(p) => add_unique(xs, join_path(p, "StarCraft II"@)),
        None => xs,
    }
}

/// `windows_game_locations`, with paths joined by `/`: `StarCraft II` under
/// each Program Files directory (each once), two folders under the local
/// application data, and `Games/StarCraft II` at the system drive's root.
pub open spec fn windows_locations_spec(
    program_files: Option<Seq<char>>,
    program_w6432: Option<Seq<char>>,
    program_files_x86: Option<Seq<char>>,
    local_app_data: Option<Seq<char>>,
    system_drive: Option<Seq<char>>,
) -> Seq<Seq<char>> {
    let l3 = under_base(program_files_x86, under_base(program_w6432, under_base(program_files, Seq::empty())));
    let l4 = match local_app_data {
        Some(p) => l3 + seq![join_path(p, "Blizzard/StarCraft II"@), join_path(p, "Programs/StarCraft II"@)],
        None => l3,
    };
    match system_drive {
        Some(d) => add_unique(l4, trim_separators(d) + "/Games/StarCraft II"@),
        None => l4,
    }
}

pub fn windows_game_locations(
    program_files: Option<String>,
    program_w6432: Option<String>,
    program_files_x86: Option<String>,
    local_app_data: Option<String>,
    system_drive: Option<String>,
) -> (r: Vec<String>)
    ensures
        views(r@) == windows_locations_spec(
            opt_view(program_files),
            opt_view(program_w6432),
            opt_view(program_files_x86),
            opt_view(local_app_data),
            opt_view(system_drive),
        ),
{
    let mut out: Vec<String> = Vec::new();
    let ghost l0 = Seq::<Seq<char>>::empty();
    assert(views(out@) =~= l0);
    if let Some(p) = &program_files {
        push_unique(&mut out, joined(p.as_str(), "StarCraft II"));
    }
    let ghost l1 = under_base(opt_view(program_files), l0);
    assert(views(out@) == l1);
    if let Some(p) = &program_w6432 {
        push_unique(&mut out, joined(p.as_str(), "StarCraft II"));
    }
    let ghost l2 = under_base(opt_view(program_w6432), l1);
    assert(views(out@) == l2);
    if let Some(p) = &program_files_x86 {
        push_unique(&mut out, joined(p.as_str(), "StarCraft II"));
    }
    let ghost l3 = under_base(opt_view(program_files_x86), l2);
    assert(views(out@) == l3);
    if let Some(p) = &local_app_data {
        let ghost before = views(out@);
        out.push(joined(p.as_str(), "Blizzard/StarCraft II"));
        out.push(joined(p.as_str(), "Programs/StarCraft II"));
        proof {
            assert(views(out@) =~= before + seq![
                join_path(p@, "Blizzard/StarCraft II"@),
                join_path(p@, "Programs/StarCraft II"@),
            ]);
        }
    }
    if let Some(d) = &system_drive {
        let drive = trim_separators_exec(&chars_of(d.as_str()));
        push_unique(&mut out, string_from_chars(&concat_chars(&drive, &chars_of("/Games/StarCraft II"))));
    }
    out
}

/// `standard_game_locations` off Windows: the two `/Applications` folders,
/// and with a home directory three folders under it.
pub open spec fn standard_locations_spec(home: Option<Seq<char>>) -> Seq<Seq<char>> {
    seq!["/Applications/StarCraft II"@, "/Applications/StarCraft II.app"@] + match home {
        Some(h) => seq![
            join_path(h, "Applications/StarCraft II"@),
            join_path(h, "Applications/StarCraft II.app"@),
            join_path(h, "Library/Application Support/Blizzard/StarCraft II"@),
        ],
        None => Seq::empty(),
    }
}

pub fn standard_game_locations(home: Option<String>) -> (r: Vec<String>)
    ensures
        views(r@) == standard_locations_spec(opt_view(home)),
{
    let mut out: Vec<String> = Vec::new();
    out.push(owned("/Applications/StarCraft II"));
    out.push(owned("/Applications/StarCraft II.app"));
    if let Some(h) = &home {
        out.push(joined(h.as_str(), "Applications/StarCraft II"));
        out.push(joined(h.as_str(), "Applications/StarCraft II.app"));
        out.push(joined(h.as_str(), "Library/Application Support/Blizzard/StarCraft II"));
    }
    proof {
        assert(views(out@) =~= standard_locations_spec(opt_view(home)));
    }
    out
}

// ----------------------------------------------------------------------
// What a game root looks like
// ----------------------------------------------------------------------

/// What stands in a directory that might be a game root.
#[derive(Debug, Clone, Copy, PartialEq, Eq)]
pub struct GameRootMarkers {
    pub maps_campaign_dir: bool,
    pub maps_dir: bool,
    pub mods_dir: bool,
    pub sc2data_dir: bool,
    pub app_bundle_dir: bool,
    pub support_dir: bool,
    pub support64_dir: bool,
    pub versions_dir: bool,
    pub sc2_exe_file: bool,
    pub switcher_exe_file: bool,
    pub support64_sc2_exe_file: bool,
    pub support64_switcher_exe_file: bool,
}

/// `is_game_root`: campaign maps, a game executable, or both `Maps` and `Mods`.
pub open spec fn is_game_root_spec(m: GameRootMarkers) -> bool {
    m.maps_campaign_dir || m.sc2_exe_file || m.switcher_exe_file || m.support64_sc2_exe_file
        || m.support64_switcher_exe_file || (m.maps_dir && m.mods_dir)
}

pub fn is_game_root(m: &GameRootMarkers) -> (r: bool)
    ensures
        r == is_game_root_spec(*m),
{
    m.maps_campaign_dir || m.sc2_exe_file || m.switcher_exe_file || m.support64_sc2_exe_file
        || m.support64_switcher_exe_file || (m.maps_dir && m.mods_dir)
}

/// `has_desktop_starcraft_markers`: game data and some part of the runtime.
pub open spec fn desktop_markers_spec(m: GameRootMarkers) -> bool {
    m.sc2data_dir && (m.app_bundle_dir || m.support_dir || m.support64_dir || m.versions_dir || m.sc2_exe_file
        || m.switcher_exe_file || m.support64_sc2_exe_file || m.support64_switcher_exe_file)
}

pub fn has_desktop_starcraft_markers(m: &GameRootMarkers) -> (r: bool)
    ensures
        r == desktop_markers_spec(*m),
{
    m.sc2data_dir && (m.app_bundle_dir || m.support_dir || m.support64_dir || m.versions_dir || m.sc2_exe_file
        || m.switcher_exe_file || m.support64_sc2_exe_file || m.support64_switcher_exe_file)
}

/// `looks_like_starcraft`: a Windows switcher, a macOS bundle, or `Versions`.
pub fn looks_like_starcraft(m: &GameRootMarkers) -> (r: bool)
    ensures
        r == (m.support64_switcher_exe_file || m.app_bundle_dir || m.versions_dir),
{
    m.support64_switcher_exe_file || m.app_bundle_dir || m.versions_dir
}

/// The directories `find_game_root` tries for a selected folder, in order.
pub open spec fn root_candidates_spec(selected: Seq<char>) -> Seq<Seq<char>> {
    seq![
        selected,
        join_path(selected, "Contents/Resources"@),
        join_path(selected, "StarCraft II.app/Contents/Resources"@),
        join_path(selected, "StarCraft II"@),
    ]
}

pub fn game_root_candidates(selected: &str) -> (r: Vec<String>)
    ensures
        views(r@) == root_candidates_spec(selected@),
{
    let mut out: Vec<String> = Vec::new();
    out.push(owned(selected));
    out.push(joined(selected, "Contents/Resources"));
    out.push(joined(selected, "StarCraft II.app/Contents/Resources"));
    out.push(joined(selected, "StarCraft II"));
    proof {
        assert(views(out@) =~= root_candidates_spec(selected@));
    }
    out
}

/// The first candidate (from `i` on) that is a game root itself or holds one
/// under `Versions`.
pub open spec fn found_root_from(
    candidates: Seq<Seq<char>>,
    is_root: Seq<bool>,
    version_roots: Seq<Option<Seq<char>>>,
    i: int,
) -> Option<Seq<char>>
    decreases candidates.len() - i,
{
    if i < 0 || i >= candidates.len() {
        None
    } else if is_root[i] {
        Some(candidates[i])
    } else if version_roots[i] is Some {
        version_roots[i]
    } else {
        found_root_from(candidates, is_root, version_roots, i + 1)
    }
}

/// `find_game_root`, given for each candidate whether it is a game root and
/// the game root found among its `Versions`, if any.
pub fn find_game_root(candidates: &[String], is_root: &[bool], version_roots: &[Option<String>]) -> (r: Option<String>)
    requires
        is_root@.len() == candidates@.len(),
        version_roots@.len() == candidates@.len(),
    ensures
        opt_view(r) == found_root_from(
            views(candidates@),
            is_root@,
            version_roots@.map_values(|o: Option<String>| opt_view(o)),
            0,
        ),
{
    let ghost vr = version_roots@.map_values(|o: Option<String>| opt_view(o));
    let mut i: usize = 0;
    while i < candidates.len()
        invariant
            i <= candidates@.len(),
            is_root@.len() == candidates@.len(),
            version_roots@.len() == candidates@.len(),
            vr == version_roots@.map_values(|o: Option<String>| opt_view(o)),
            found_root_from(views(candidates@), is_root@, vr, 0) == found_root_from(
                views(candidates@),
                is_root@,
                vr,
                i as int,
            ),
        decreases candidates.len() - i,
    {
        if is_root[i] {
            return Some(candidates[i].clone());
        }
        if let Some(v) = &version_roots[i] {
            proof {
                assert(vr[i as int] == Some(v@));
            }
            return Some(v.clone());
        }
        proof {
            assert(vr[i as int] is None);
        }
        i = i + 1;
    }
    None
}

pub open spec fn no_directory_error() -> Seq<char> {
    "Choose an existing StarCraft II directory first."@
}

pub open spec fn not_game_root_error() -> Seq<char> {
    "The selected directory is not a StarCraft II game root."@
}

pub open spec fn not_exact_root_error() -> Seq<char> {
    "Choose the exact detected StarCraft II game directory, not a parent folder or .app bundle."@
}

pub open spec fn no_runtime_markers_error() -> Seq<char> {
    "The selected directory lacks the StarCraft II runtime markers required for a desktop install."@
}

/// `require_desktop_game_root`: the selected directory (canonicalized, when
/// it exists) must itself be the detected game root (canonicalized), with
/// the desktop runtime markers.
pub open spec fn desktop_root_outcome(
    selected: Option<Seq<char>>,
    resolved: Option<Result<Seq<char>, Seq<char>>>,
    has_markers: bool,
) -> Result<Seq<char>, Seq<char>> {
    match selected {
        None => Err(no_directory_error()),
        Some(s) => match resolved {
            None => Err(not_game_root_error()),
            Some(Err(e)) => Err(e),
            Some(Ok(r)) => if r != s {
                Err(not_exact_root_error())
            } else if !has_markers {
                Err(no_runtime_markers_error())
            } else {
                Ok(r)
            },
        },
    }
}

pub fn require_desktop_game_root(
    selected: &Option<String>,
    resolved: &Option<Result<String, String>>,
    has_markers: bool,
) -> (r: Result<String, String>)
    ensures
        match r {
            Ok(p) => desktop_root_outcome(
                opt_view(*selected),
                match *resolved {
                    None => None,
                    Some(Ok(x)) => Some(Ok::<Seq<char>, Seq<char>>(x@)),
                    Some(Err(e)) => Some(Err::<Seq<char>, Seq<char>>(e@)),
                },
                has_markers,
            ) == Ok::<Seq<char>, Seq<char>>(p@),
            Err(e) => desktop_root_outcome(
                opt_view(*selected),
                match *resolved {
                    None => None,
                    Some(Ok(x)) => Some(Ok::<Seq<char>, Seq<char>>(x@)),
                    Some(Err(e)) => Some(Err::<Seq<char>, Seq<char>>(e@)),
                },
                has_markers,
            ) == Err::<Seq<char>, Seq<char>>(e@),
        },
{
    let s = match selected {
        None => {
            return Err(owned("Choose an existing StarCraft II directory first."));
        },
        Some(s) => s,
    };
    let r = match resolved {
        None => {
            return Err(owned("The selected directory is not a StarCraft II game root."));
        },
        Some(Err(e)) => {
            return Err(e.clone());
        },
        Some(Ok(r)) => r,
    };
    if !chars_eq(&chars_of(r.as_str()), &chars_of(s.as_str())) {
        return Err(owned("Choose the exact detected StarCraft II game directory, not a parent folder or .app bundle."));
    }
    if !has_markers {
        return Err(
            owned("The selected directory lacks the StarCraft II runtime markers required for a desktop install."),
        );
    }
    Ok(r.clone())
}

// ----------------------------------------------------------------------
// CCM's own directory and lock
// ----------------------------------------------------------------------

pub open spec fn irregular_game_root_error() -> Seq<char> {
    "Selected game directory is not a regular directory."@
}

pub open spec fn irregular_manager_error() -> Seq<char> {
    "CCM's .ccm-reborn directory must be a regular directory, not a symlink."@
}

/// `validate_manager_root`: the game root is a real directory, and CCM's
/// `.ccm-reborn` inside it, when present, is one too.
pub open spec fn manager_root_outcome(
    root_kind: Result<PathKind, String>,
    manager_present: bool,
    manager_kind: Result<PathKind, String>,
) -> Result<(), Seq<char>> {
    match root_kind {
        Err(e) => Err(e@),
        Ok(k) => if k != PathKind::Directory {
            Err(irregular_game_root_error())
        } else if !manager_present {
            Ok(())
        } else {
            match manager_kind {
                Err(e) => Err(e@),
                Ok(m) => if m != PathKind::Directory {
                    Err(irregular_manager_error())
                } else {
                    Ok(())
                },
            }
        },
    }
}

pub fn validate_manager_root(
    root_kind: &Result<PathKind, String>,
    manager_present: bool,
    manager_kind: &Result<PathKind, String>,
) -> (r: Result<(), String>)
    ensures
        match r {
            Ok(()) => manager_root_outcome(*root_kind, manager_present, *manager_kind) is Ok,
            Err(e) => manager_root_outcome(*root_kind, manager_present, *manager_kind) == Err::<(), Seq<char>>(e@),
        },
{
    match root_kind {
        Err(e) => {
            return Err(e.clone());
        },
        Ok(PathKind::Directory) => {},
        Ok(_) => {
            return Err(owned("Selected game directory is not a regular directory."));
        },
    }
    if !manager_present {
        return Ok(());
    }
    match manager_kind {
        Err(e) => Err(e.clone()),
        Ok(PathKind::Directory) => Ok(()),
        Ok(_) => Err(owned("CCM's .ccm-reborn directory must be a regular directory, not a symlink.")),
    }
}

pub open spec fn lock_held_error() -> Seq<char> {
    "Another CCM operation is already running for this StarCraft II installation."@
}

/// The error of a lock that could not be taken: another operation holds
/// it, or the file system failed with `io_error`.
pub fn operation_lock_error(held: bool, io_error: &str) -> (r: String)
    ensures
        held ==> r@ == lock_held_error(),
        !held ==> r@ == io_error@,
{
    if held {
        owned("Another CCM operation is already running for this StarCraft II installation.")
    } else {
        owned(io_error)
    }
}

// ----------------------------------------------------------------------
// Choosing among account profiles
// ----------------------------------------------------------------------

/// An account profile directory, with what its ranking reads of it.
#[derive(Debug, Clone, PartialEq, Eq)]
pub struct ProfileCandidate {
    pub path: String,
    /// `CampaignProgress.xml` is a regular file in it.
    pub has_progress: bool,
    /// The latest modification (seconds since the Unix epoch) of its
    /// progress file, `Banks` or `Saves`, or 0.
    pub modified: u64,
}

/// Profiles with progress first, then the most recently played, then by path.
pub open spec fn profile_precedes(a: ProfileCandidate, b: ProfileCandidate) -> bool {
    if a.has_progress != b.has_progress {
        a.has_progress
    } else if a.modified != b.modified {
        a.modified > b.modified
    } else {
        parts_lt(path_parts(a.path@), path_parts(b.path@))
    }
}

impl ListOrder for ProfileCandidate {
    open spec fn precedes(a: Self, b: Self) -> bool {
        profile_precedes(a, b)
    }

    proof fn lemma_order(a: Self, b: Self, c: Self) {
        let (x, y, z) = (path_parts(a.path@), path_parts(b.path@), path_parts(c.path@));
        lemma_parts_lt_laws(x, y, z);
        lemma_parts_lt_laws(x, z, y);
        lemma_parts_lt_laws(y, z, x);
        lemma_parts_lt_laws(y, x, z);
        lemma_parts_lt_total(x, y);
        lemma_parts_lt_total(y, z);
    }

    fn precedes_exec(a: &Self, b: &Self) -> (r: bool) {
        if a.has_progress != b.has_progress {
            return a.has_progress;
        }
        if a.modified != b.modified {
            return a.modified > b.modified;
        }
        let x = path_parts_exec(&chars_of(a.path.as_str()));
        let y = path_parts_exec(&chars_of(b.path.as_str()));
        proof {
            assert(x@.map_values(|l: Vec<char>| l@) =~= part_views(x@));
            assert(y@.map_values(|l: Vec<char>| l@) =~= part_views(y@));
        }
        parts_lt_exec(&x, &y)
    }
}

/// `discover_starcraft_profiles`' order: profiles with campaign progress
/// first, the most recently changed first among them, then by path.
pub fn sort_profile_candidates(candidates: &mut Vec<ProfileCandidate>)
    ensures
        final(candidates)@.to_multiset() == old(candidates)@.to_multiset(),
        is_sorted(final(candidates)@),
        stable_sort_of(final(candidates)@, old(candidates)@),
        forall|i: int, j: int|
            0 <= i < j < final(candidates)@.len() ==> (#[trigger] final(candidates)@[j].has_progress
                ==> #[trigger] final(candidates)@[i].has_progress),
        forall|i: int, j: int|
            0 <= i < j < final(candidates)@.len() && (#[trigger] final(candidates)@[i]).has_progress == (
            #[trigger] final(candidates)@[j]).has_progress ==> final(candidates)@[i].modified
                >= final(candidates)@[j].modified,
{
    insertion_sort(candidates.as_mut_slice());
    proof {
        lemma_sorted_profiles_most_recent_first(candidates@);
    }
}

/// `is_starcraft_profile_directory`: an account profile holds `Banks`,
/// `Saves` or `CampaignProgress.xml`.
pub fn is_starcraft_profile_directory(banks_dir: bool, saves_dir: bool, progress_file: bool) -> (r: bool)
    ensures
        r == (banks_dir || saves_dir || progress_file),
{
    banks_dir || saves_dir || progress_file
}

/// `standard_profile_locations`: the `Accounts` folders under the home
/// directory, the Windows user profile and the roaming application data.
pub open spec fn profile_locations_spec(home: Option<Seq<char>>, user_profile: Option<Seq<char>>, app_data: Option<Seq<char>>) -> Seq<
    Seq<char>,
> {
    (match home {
        Some(h) => seq![
            join_path(h, "Library/Application Support/Blizzard/StarCraft II/Accounts"@),
            join_path(h, ".local/share/Blizzard/StarCraft II/Accounts"@),
        ],
        None => Seq::empty(),
    }) + (match user_profile {
        Some(u) => seq![
            join_path(u, "Documents/StarCraft II/Accounts"@),
            join_path(u, "AppData/Roaming/Blizzard/StarCraft II/Accounts"@),
        ],
        None => Seq::empty(),
    }) + (match app_data {
        Some(a) => seq![join_path(a, "Blizzard/StarCraft II/Accounts"@)],
        None => Seq::empty(),
    })
}

pub fn standard_profile_locations(home: Option<String>, user_profile: Option<String>, app_data: Option<String>) -> (r: Vec<
    String,
>)
    ensures
        views(r@) == profile_locations_spec(opt_view(home), opt_view(user_profile), opt_view(app_data)),
{
    let mut out: Vec<String> = Vec::new();
    if let Some(h) = &home {
        out.push(joined(h.as_str(), "Library/Application Support/Blizzard/StarCraft II/Accounts"));
        out.push(joined(h.as_str(), ".local/share/Blizzard/StarCraft II/Accounts"));
    }
    let ghost a = views(out@);
    if let Some(u) = &user_profile {
        out.push(joined(u.as_str(), "Documents/StarCraft II/Accounts"));
        out.push(joined(u.as_str(), "AppData/Roaming/Blizzard/StarCraft II/Accounts"));
    }
    let ghost b = views(out@);
    if let Some(d) = &app_data {
        out.push(joined(d.as_str(), "Blizzard/StarCraft II/Accounts"));
    }
    proof {
        assert(views(out@) =~= profile_locations_spec(opt_view(home), opt_view(user_profile), opt_view(app_data)));
    }
    out
}


/// In a sorted list of profile candidates, profiles with progress come
/// before those without, and among profiles that agree on that, the most
/// recently played comes first.
pub proof fn lemma_sorted_profiles_most_recent_first(s: Seq<ProfileCandidate>)
    requires
        is_sorted(s),
    ensures
        forall|i: int, j: int|
            0 <= i < j < s.len() ==> (#[trigger] s[j].has_progress ==> #[trigger] s[i].has_progress),
        forall|i: int, j: int|
            0 <= i < j < s.len() && (#[trigger] s[i]).has_progress == (#[trigger] s[j]).has_progress ==> s[i].modified
                >= s[j].modified,
{
    assert forall|i: int, j: int| 0 <= i < j < s.len() implies (#[trigger] s[j].has_progress ==> #[trigger] s[i].has_progress) by {
        assert(!ProfileCandidate::precedes(s[j], s[i]));
    }
    assert forall|i: int, j: int|
        0 <= i < j < s.len() && (#[trigger] s[i]).has_progress == (#[trigger] s[j]).has_progress implies s[i].modified
            >= s[j].modified by {
        assert(!ProfileCandidate::precedes(s[j], s[i]));
    }
}

} // verus!
