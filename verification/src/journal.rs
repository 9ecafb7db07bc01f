//! The pending-install journal: what a journal read back from disk must
//! look like before recovery trusts it, and what recovery then does.

use vstd::prelude::*;
use crate::campaign_profile::{part_views, relative_under};
use crate::paths::{dot_dot, join_path, manager_directory, pieces, relative_path_outcome, slashed, slashed_exec};
use crate::profile_core::InstalledManifest;
use crate::state::{managed_state_outcome, state_target, validate_managed_state, ManagedState};
use crate::text::{chars_eq, chars_of, concat_chars, join_strings, join_with, owned, string_from_chars, views};

verus! {

/// One profile file a switch may change, with the copy taken before it.
#[derive(Debug, Clone, PartialEq, Eq)]
pub struct ProfileBackupEntry {
    pub path: String,
    pub backup: Option<String>,
}

/// The profile files a switch captured, in capture order.
#[derive(Debug, Clone, PartialEq, Eq)]
pub struct ProfileTransaction {
    pub entries: Vec<ProfileBackupEntry>,
}

/// A package file of the previous install, copied into staging.
#[derive(Debug, Clone, PartialEq, Eq)]
pub struct PreviousInstalledFile {
    pub destination: String,
    pub staged_path: String,
}

/// What recovery needs to put the previous managed campaign back.
#[derive(Debug, Clone, PartialEq, Eq)]
pub struct PreviousInstallSnapshot {
    pub state: ManagedState,
    pub backup_snapshot: String,
    pub files: Vec<PreviousInstalledFile>,
    pub manifest: Option<InstalledManifest>,
}

/// The intent record written before the profile or the game is changed.
#[derive(Debug, Clone, PartialEq, Eq)]
pub struct PendingInstallJournal {
    pub format: u32,
    pub profile_transaction: ProfileTransaction,
    pub profile_roots: Vec<String>,
    pub previous_install: Option<PreviousInstallSnapshot>,
    pub new_state: Option<ManagedState>,
    pub completed: bool,
}

/// What `symlink_metadata` says a path is.
#[derive(Debug, Clone, Copy, PartialEq, Eq)]
pub enum PathKind {
    Symlink,
    File,
    Directory,
    Other,
}

/// What the file system showed for each path a journal names (`None` where
/// `symlink_metadata` failed), and whether each profile root is one CCM
/// approves (CCM's profile store, or a StarCraft II profile directory).
#[derive(Debug, Clone, PartialEq, Eq)]
pub struct JournalObservations {
    pub root_approved: Vec<bool>,
    pub root_kinds: Vec<Option<PathKind>>,
    pub entry_kinds: Vec<Option<PathKind>>,
    pub backup_kinds: Vec<Option<PathKind>>,
    pub snapshot_kind: Option<PathKind>,
    pub staged_kinds: Vec<Option<PathKind>>,
}

// ----------------------------------------------------------------------
// Path shapes
// ----------------------------------------------------------------------

pub open spec fn is_drive_letter(c: char) -> bool {
    ('a' <= c && c <= 'z') || ('A' <= c && c <= 'Z')
}

pub open spec fn is_separator(c: char) -> bool {
    c == '/' || c == '\\'
}

/// `Path::is_absolute` on the systems CCM runs on: a Unix path from the
/// root (`/...`), a Windows path with a drive and a root (`C:\...` or
/// `C:/...`), or a Windows UNC path (`\\server\share`). A Windows path with
/// a root but no drive (`\temp`) or a drive but no root (`C:temp`) is not.
pub open spec fn is_absolute(p: Seq<char>) -> bool {
    ||| p.len() > 0 && p[0] == '/'
    ||| p.len() >= 2 && p[0] == '\\' && p[1] == '\\'
    ||| p.len() >= 3 && is_drive_letter(p[0]) && p[1] == ':' && is_separator(p[2])
}

/// No `..` segment, with either separator.
pub open spec fn no_parent_piece(p: Seq<char>) -> bool {
    forall|i: int| 0 <= i < pieces(slashed(p)).len() ==> #[trigger] pieces(slashed(p))[i] != dot_dot()
}

/// A safe absolute path: absolute, with no `..`.
pub open spec fn safe_absolute(p: Seq<char>) -> bool {
    is_absolute(p) && no_parent_piece(p)
}

/// `path_has_only_normal_suffix`: `path` lies under `root` and what follows
/// `root` has no `..`.
pub open spec fn normal_suffix(path: Seq<char>, root: Seq<char>) -> bool {
    match relative_under(root, path) {
        Some(rel) => no_parent_piece(rel),
        None => false,
    }
}

/// `<game>/.ccm-reborn/staging`.
pub open spec fn staging_root(game_root: Seq<char>) -> Seq<char> {
    join_path(join_path(game_root, manager_directory()), "staging"@)
}

fn no_parent_piece_exec(p: &[char]) -> (r: bool)
    ensures
        r == no_parent_piece(p@),
{
    let q = slashed_exec(p);
    let ps = crate::paths::pieces_exec(&q);
    proof {
        assert(part_views(ps@) =~= pieces(slashed(p@)));
    }
    let dd = crate::paths::dot_dot_exec();
    let mut i: usize = 0;
    while i < ps.len()
        invariant
            i <= ps.len(),
            part_views(ps@) == pieces(slashed(p@)),
            dd@ == dot_dot(),
            forall|j: int| 0 <= j < i ==> #[trigger] pieces(slashed(p@))[j] != dot_dot(),
        decreases ps.len() - i,
    {
        if chars_eq(&ps[i], &dd) {
            proof {
                assert(pieces(slashed(p@))[i as int] == dot_dot());
            }
            return false;
        }
        i = i + 1;
    }
    true
}

fn safe_absolute_exec(p: &str) -> (r: bool)
    ensures
        r == safe_absolute(p@),
{
    is_absolute_exec(p) && no_parent_piece_exec(&chars_of(p))
}

/// Whether `path` lies under `root` with no
/// `..` after it (how a journal's profile root is placed in CCM's store).
pub fn normal_suffix_exec(path: &str, root: &str) -> (r: bool)
    ensures
        r == normal_suffix(path@, root@),
{
    match crate::campaign_profile::relative_profile_path(root, path) {
        Some(rel) => no_parent_piece_exec(&chars_of(rel.as_str())),
        None => false,
    }
}

fn is_absolute_exec(p: &str) -> (r: bool)
    ensures
        r == is_absolute(p@),
{
    let c = chars_of(p);
    if c.len() > 0 && c[0] == '/' {
        return true;
    }
    if c.len() >= 2 && c[0] == '\\' && c[1] == '\\' {
        return true;
    }
    c.len() >= 3 && (('a' <= c[0] && c[0] <= 'z') || ('A' <= c[0] && c[0] <= 'Z')) && c[1] == ':' && (c[2] == '/'
        || c[2] == '\\')
}

pub open spec fn unsafe_dir(k: Option<PathKind>) -> bool {
    k matches Some(x) && (x == PathKind::Symlink || x != PathKind::Directory)
}

pub open spec fn unsafe_file(k: Option<PathKind>) -> bool {
    k matches Some(x) && (x == PathKind::Symlink || x != PathKind::File)
}

fn unsafe_dir_exec(k: Option<PathKind>) -> (r: bool)
    ensures
        r == unsafe_dir(k),
{
    match k {
        Some(PathKind::Directory) => false,
        Some(_) => true,
        None => false,
    }
}

fn unsafe_file_exec(k: Option<PathKind>) -> (r: bool)
    ensures
        r == unsafe_file(k),
{
    match k {
        Some(PathKind::File) => false,
        Some(_) => true,
        None => false,
    }
}

// ----------------------------------------------------------------------
// Validating a journal
// ----------------------------------------------------------------------

/// The first error among the profile roots from `i` on.
pub open spec fn roots_error(roots: Seq<String>, approved: Seq<bool>, kinds: Seq<Option<PathKind>>, i: int) -> Option<Seq<char>>
    decreases roots.len() - i,
{
    if i < 0 || i >= roots.len() {
        None
    } else if !safe_absolute(roots[i]@) || !approved[i] {
        Some("Pending install journal has a profile root outside SC2 or CCM's profile store."@)
    } else if unsafe_dir(kinds[i]) {
        Some("Pending install journal references an unsafe profile root."@)
    } else {
        roots_error(roots, approved, kinds, i + 1)
    }
}

pub open spec fn under_some_root(path: Seq<char>, roots: Seq<String>) -> bool {
    exists|k: int| 0 <= k < roots.len() && normal_suffix(path, #[trigger] roots[k]@)
}

/// The first error of profile entry `e`.
pub open spec fn entry_error(
    e: ProfileBackupEntry,
    roots: Seq<String>,
    kind: Option<PathKind>,
    backup_kind: Option<PathKind>,
    staging: Seq<char>,
) -> Option<Seq<char>> {
    if !(is_absolute(e.path@) && under_some_root(e.path@, roots)) {
        Some("Pending install journal references a profile path outside the selected SC2 profile."@)
    } else if unsafe_file(kind) {
        Some("Pending install journal references an unsafe profile file."@)
    } else {
        match e.backup {
            None => None,
            Some(b) => if !is_absolute(b@) || !normal_suffix(b@, staging) {
                Some("Pending install journal has an invalid profile rollback backup path."@)
            } else if backup_kind is None {
                Some("Pending install journal is missing a profile rollback backup."@)
            } else if unsafe_file(backup_kind) {
                Some("Pending install journal profile rollback backup is unsafe."@)
            } else {
                None
            },
        }
    }
}

pub open spec fn entries_error(
    es: Seq<ProfileBackupEntry>,
    roots: Seq<String>,
    kinds: Seq<Option<PathKind>>,
    backup_kinds: Seq<Option<PathKind>>,
    staging: Seq<char>,
    i: int,
) -> Option<Seq<char>>
    decreases es.len() - i,
{
    if i < 0 || i >= es.len() {
        None
    } else {
        match entry_error(es[i], roots, kinds[i], backup_kinds[i], staging) {
            Some(m) => Some(m),
            None => entries_error(es, roots, kinds, backup_kinds, staging, i + 1),
        }
    }
}

pub open spec fn staged_file_error(f: PreviousInstalledFile, kind: Option<PathKind>, staging: Seq<char>) -> Option<Seq<char>> {
    if relative_path_outcome(f.destination@) is Err {
        Some(relative_path_outcome(f.destination@)->Err_0)
    } else if !is_absolute(f.staged_path@) || !normal_suffix(f.staged_path@, staging) {
        Some("Pending install journal has an invalid staged package path."@)
    } else if kind is None {
        Some("Pending install journal is missing a staged previous package file."@)
    } else if unsafe_file(kind) {
        Some("Pending install journal staged previous package file is unsafe."@)
    } else {
        None
    }
}

pub open spec fn staged_files_error(fs: Seq<PreviousInstalledFile>, kinds: Seq<Option<PathKind>>, staging: Seq<char>, i: int) -> Option<
    Seq<char>,
>
    decreases fs.len() - i,
{
    if i < 0 || i >= fs.len() {
        None
    } else {
        match staged_file_error(fs[i], kinds[i], staging) {
            Some(m) => Some(m),
            None => staged_files_error(fs, kinds, staging, i + 1),
        }
    }
}

pub open spec fn snapshot_error(p: PreviousInstallSnapshot, kind: Option<PathKind>, staged: Seq<Option<PathKind>>, staging: Seq<char>) -> Option<
    Seq<char>,
> {
    if !is_absolute(p.backup_snapshot@) || !normal_suffix(p.backup_snapshot@, staging) {
        Some("Pending install journal has an invalid previous-install backup path."@)
    } else if kind is None {
        Some("Pending install journal is missing the previous-install backup."@)
    } else if unsafe_dir(kind) {
        Some("Pending install journal previous-install backup is unsafe."@)
    } else {
        staged_files_error(p.files@, staged, staging, 0)
    }
}

/// `validate_pending_install_journal`: the first error, in the order the
/// journal is checked, or `None`.
pub open spec fn journal_error(j: PendingInstallJournal, o: JournalObservations, game_root: Seq<char>) -> Option<Seq<char>> {
    let staging = staging_root(game_root);
    let profile_error = if j.profile_transaction.entries@.len() == 0 {
        None
    } else if j.profile_roots@.len() == 0 {
        Some("Pending install journal has profile changes but no approved profile roots."@)
    } else {
        match roots_error(j.profile_roots@, o.root_approved@, o.root_kinds@, 0) {
            Some(m) => Some(m),
            None => entries_error(j.profile_transaction.entries@, j.profile_roots@, o.entry_kinds@, o.backup_kinds@, staging, 0),
        }
    };
    match profile_error {
        Some(m) => Some(m),
        None => match j.previous_install {
            Some(p) => snapshot_error(p, o.snapshot_kind, o.staged_kinds@, staging),
            None => None,
        },
    }
}

/// The observations describe the journal's paths one for one.
pub open spec fn observations_fit(j: PendingInstallJournal, o: JournalObservations) -> bool {
    &&& o.root_approved@.len() == j.profile_roots@.len()
    &&& o.root_kinds@.len() == j.profile_roots@.len()
    &&& o.entry_kinds@.len() == j.profile_transaction.entries@.len()
    &&& o.backup_kinds@.len() == j.profile_transaction.entries@.len()
    &&& (j.previous_install matches Some(p) ==> o.staged_kinds@.len() == p.files@.len())
}

fn under_some_root_exec(path: &str, roots: &Vec<String>) -> (r: bool)
    ensures
        r == under_some_root(path@, roots@),
{
    let mut k: usize = 0;
    while k < roots.len()
        invariant
            k <= roots.len(),
            forall|m: int| 0 <= m < k ==> !normal_suffix(path@, #[trigger] roots@[m]@),
        decreases roots.len() - k,
    {
        if normal_suffix_exec(path, roots[k].as_str()) {
            return true;
        }
        k = k + 1;
    }
    false
}

fn check_entry(
    e: &ProfileBackupEntry,
    roots: &Vec<String>,
    kind: Option<PathKind>,
    backup_kind: Option<PathKind>,
    staging: &str,
) -> (r: Result<(), String>)
    ensures
        match r {
            Ok(_) => entry_error(*e, roots@, kind, backup_kind, staging@) is None,
            Err(m) => entry_error(*e, roots@, kind, backup_kind, staging@) == Some(m@),
        },
{
    if !(is_absolute_exec(e.path.as_str()) && under_some_root_exec(e.path.as_str(), roots)) {
        return Err(owned("Pending install journal references a profile path outside the selected SC2 profile."));
    }
    if unsafe_file_exec(kind) {
        return Err(owned("Pending install journal references an unsafe profile file."));
    }
    if let Some(b) = &e.backup {
        if !is_absolute_exec(b.as_str()) || !normal_suffix_exec(b.as_str(), staging) {
            return Err(owned("Pending install journal has an invalid profile rollback backup path."));
        }
        if backup_kind.is_none() {
            return Err(owned("Pending install journal is missing a profile rollback backup."));
        }
        if unsafe_file_exec(backup_kind) {
            return Err(owned("Pending install journal profile rollback backup is unsafe."));
        }
    }
    Ok(())
}

fn check_snapshot(p: &PreviousInstallSnapshot, kind: Option<PathKind>, staged: &Vec<Option<PathKind>>, staging: &str) -> (r: Result<
    (),
    String,
>)
    requires
        staged@.len() == p.files@.len(),
    ensures
        match r {
            Ok(_) => snapshot_error(*p, kind, staged@, staging@) is None,
            Err(m) => snapshot_error(*p, kind, staged@, staging@) == Some(m@),
        },
{
    if !is_absolute_exec(p.backup_snapshot.as_str()) || !normal_suffix_exec(p.backup_snapshot.as_str(), staging) {
        return Err(owned("Pending install journal has an invalid previous-install backup path."));
    }
    if kind.is_none() {
        return Err(owned("Pending install journal is missing the previous-install backup."));
    }
    if unsafe_dir_exec(kind) {
        return Err(owned("Pending install journal previous-install backup is unsafe."));
    }
    let mut i: usize = 0;
    while i < p.files.len()
        invariant
            i <= p.files.len(),
            staged@.len() == p.files@.len(),
            is_absolute(p.backup_snapshot@),
            normal_suffix(p.backup_snapshot@, staging@),
            kind is Some,
            !unsafe_dir(kind),
            staged_files_error(p.files@, staged@, staging@, 0) == staged_files_error(p.files@, staged@, staging@, i as int),
        decreases p.files.len() - i,
    {
        let f = &p.files[i];
        crate::paths::safe_relative_path(f.destination.as_str())?;
        if !is_absolute_exec(f.staged_path.as_str()) || !normal_suffix_exec(f.staged_path.as_str(), staging) {
            return Err(owned("Pending install journal has an invalid staged package path."));
        }
        if staged[i].is_none() {
            return Err(owned("Pending install journal is missing a staged previous package file."));
        }
        if unsafe_file_exec(staged[i]) {
            return Err(owned("Pending install journal staged previous package file is unsafe."));
        }
        i = i + 1;
    }
    Ok(())
}

/// `validate_pending_install_journal`, over what the file system showed for
/// each path the journal names.
pub fn validate_pending_install_journal(journal: &PendingInstallJournal, observed: &JournalObservations, game_root: &str) -> (r: Result<
    (),
    String,
>)
    requires
        observations_fit(*journal, *observed),
    ensures
        match r {
            Ok(_) => journal_error(*journal, *observed, game_root@) is None,
            Err(m) => journal_error(*journal, *observed, game_root@) == Some(m@),
        },
{
    let staging = string_from_chars(
        &crate::paths::join_path_exec(
            &crate::paths::join_path_exec(&chars_of(game_root), &chars_of(".ccm-reborn")),
            &chars_of("staging"),
        ),
    );
    proof {
        reveal_strlit(".ccm-reborn");
        assert(".ccm-reborn"@ =~= manager_directory());
    }
    let entries = &journal.profile_transaction.entries;
    if entries.len() > 0 {
        if journal.profile_roots.len() == 0 {
            return Err(owned("Pending install journal has profile changes but no approved profile roots."));
        }
        let mut i: usize = 0;
        while i < journal.profile_roots.len()
            invariant
                i <= journal.profile_roots.len(),
                observations_fit(*journal, *observed),
                journal.profile_transaction.entries@.len() > 0,
                journal.profile_roots@.len() > 0,
                staging@ == staging_root(game_root@),
                roots_error(journal.profile_roots@, observed.root_approved@, observed.root_kinds@, 0) == roots_error(
                    journal.profile_roots@,
                    observed.root_approved@,
                    observed.root_kinds@,
                    i as int,
                ),
            decreases journal.profile_roots.len() - i,
        {
            if !safe_absolute_exec(journal.profile_roots[i].as_str()) || !observed.root_approved[i] {
                return Err(owned("Pending install journal has a profile root outside SC2 or CCM's profile store."));
            }
            if unsafe_dir_exec(observed.root_kinds[i]) {
                return Err(owned("Pending install journal references an unsafe profile root."));
            }
            i = i + 1;
        }
        let mut k: usize = 0;
        while k < entries.len()
            invariant
                k <= entries.len(),
                entries == &journal.profile_transaction.entries,
                observations_fit(*journal, *observed),
                journal.profile_transaction.entries@.len() > 0,
                journal.profile_roots@.len() > 0,
                roots_error(journal.profile_roots@, observed.root_approved@, observed.root_kinds@, 0) is None,
                staging@ == staging_root(game_root@),
                entries_error(entries@, journal.profile_roots@, observed.entry_kinds@, observed.backup_kinds@, staging@, 0)
                    == entries_error(
                    entries@,
                    journal.profile_roots@,
                    observed.entry_kinds@,
                    observed.backup_kinds@,
                    staging@,
                    k as int,
                ),
            decreases entries.len() - k,
        {
            check_entry(&entries[k], &journal.profile_roots, observed.entry_kinds[k], observed.backup_kinds[k], staging.as_str())?;
            k = k + 1;
        }
    }
    if let Some(p) = &journal.previous_install {
        check_snapshot(p, observed.snapshot_kind, &observed.staged_kinds, staging.as_str())?;
    }
    Ok(())
}

/// `read_pending_install_journal` after parsing: the format, the journal's
/// paths, then the managed states it carries.
pub open spec fn read_journal_error(j: PendingInstallJournal, o: JournalObservations, game_root: Seq<char>) -> Option<Seq<char>> {
    if j.format != 1 {
        Some("Pending install journal has an unsupported format."@)
    } else if journal_error(j, o, game_root) is Some {
        journal_error(j, o, game_root)
    } else if j.previous_install matches Some(p) && managed_state_outcome(p.state) is Err {
        Some(managed_state_outcome(j.previous_install->Some_0.state)->Err_0)
    } else if j.new_state matches Some(s) && managed_state_outcome(s) is Err {
        Some(managed_state_outcome(j.new_state->Some_0)->Err_0)
    } else {
        None
    }
}

/// `read_pending_install_journal`, once the document is parsed.
pub fn check_pending_install_journal(journal: &PendingInstallJournal, observed: &JournalObservations, game_root: &str) -> (r: Result<
    (),
    String,
>)
    requires
        observations_fit(*journal, *observed),
    ensures
        match r {
            Ok(_) => read_journal_error(*journal, *observed, game_root@) is None,
            Err(m) => read_journal_error(*journal, *observed, game_root@) == Some(m@),
        },
{
    if journal.format != 1 {
        return Err(owned("Pending install journal has an unsupported format."));
    }
    validate_pending_install_journal(journal, observed, game_root)?;
    if let Some(p) = &journal.previous_install {
        validate_managed_state(&p.state)?;
    }
    if let Some(s) = &journal.new_state {
        validate_managed_state(s)?;
    }
    Ok(())
}

// ----------------------------------------------------------------------
// Recovery
// ----------------------------------------------------------------------

/// The branch whose state recovery reads: the new install's, else the
/// previous install's.
pub open spec fn recovery_target_spec(j: PendingInstallJournal) -> Option<Seq<char>> {
    match j.new_state {
        Some(s) => Some(state_target(s)),
        None => match j.previous_install {
            Some(p) => Some(state_target(p.state)),
            None => None,
        },
    }
}

/// The branch whose active state `recover_interrupted_install` reads.
pub fn recovery_target(journal: &PendingInstallJournal) -> (r: Option<String>)
    ensures
        match r {
            Some(t) => recovery_target_spec(*journal) == Some(t@),
            None => recovery_target_spec(*journal) is None,
        },
{
    match &journal.new_state {
        Some(s) => Some(s.target_path_or_first_clear()),
        None => match &journal.previous_install {
            Some(p) => Some(p.state.target_path_or_first_clear()),
            None => None,
        },
    }
}

/// Whether recovery must hash the active install's files: only when the
/// active state is the previous install's.
pub open spec fn needs_file_check_spec(j: PendingInstallJournal, active: Option<ManagedState>) -> bool {
    j.previous_install matches Some(p) && active matches Some(a) && a.backup_dir@ == p.state.backup_dir@
}

/// What recovery does with an interrupted operation.
#[derive(Debug, Clone, PartialEq, Eq)]
pub struct RecoveryPlan {
    /// The operation finished; only the journal files are removed.
    pub finished: bool,
    /// Undo the new install's files, manifest, state and backup.
    pub undo_new_install: bool,
    /// Put the previous managed install back from its snapshot.
    pub restore_previous: bool,
    /// Roll back the profile transaction.
    pub rollback_profile: bool,
}

/// `recover_interrupted_install`'s decisions: a completed install (by its
/// flag, or because the active state is the new one) is left as it is;
/// otherwise the new install is undone, the previous one restored unless it
/// is still intact, and the profile rolled back.
pub open spec fn recovery_plan_spec(j: PendingInstallJournal, active: Option<ManagedState>, previous_files_match: bool) -> RecoveryPlan {
    let completed_install = j.new_state matches Some(n) && active matches Some(a) && a.backup_dir@ == n.backup_dir@;
    let previous_intact = needs_file_check_spec(j, active) && previous_files_match;
    if j.completed || completed_install {
        RecoveryPlan { finished: true, undo_new_install: false, restore_previous: false, rollback_profile: false }
    } else {
        RecoveryPlan {
            finished: false,
            undo_new_install: j.new_state is Some,
            restore_previous: j.previous_install is Some && !previous_intact,
            rollback_profile: true,
        }
    }
}

fn same_text(a: &String, b: &String) -> (r: bool)
    ensures
        r == (a@ == b@),
{
    chars_eq(&chars_of(a.as_str()), &chars_of(b.as_str()))
}

/// Whether recovery must check the previous install's files.
pub fn needs_file_check(journal: &PendingInstallJournal, active: &Option<ManagedState>) -> (r: bool)
    ensures
        r == needs_file_check_spec(*journal, *active),
{
    match (&journal.previous_install, active) {
        (Some(p), Some(a)) => same_text(&a.backup_dir, &p.state.backup_dir),
        _ => false,
    }
}

/// `recover_interrupted_install`'s decisions; `previous_files_match` is
/// whether the active install's package files still hash as recorded (asked
/// only when `needs_file_check`).
pub fn recovery_plan(journal: &PendingInstallJournal, active: &Option<ManagedState>, previous_files_match: bool) -> (r: RecoveryPlan)
    ensures
        r == recovery_plan_spec(*journal, *active, previous_files_match),
{
    let completed_install = match (&journal.new_state, active) {
        (Some(n), Some(a)) => same_text(&a.backup_dir, &n.backup_dir),
        _ => false,
    };
    let previous_intact = needs_file_check(journal, active) && previous_files_match;
    if journal.completed || completed_install {
        RecoveryPlan { finished: true, undo_new_install: false, restore_previous: false, rollback_profile: false }
    } else {
        RecoveryPlan {
            finished: false,
            undo_new_install: journal.new_state.is_some(),
            restore_previous: journal.previous_install.is_some() && !previous_intact,
            rollback_profile: true,
        }
    }
}

/// Recovery never undoes a finished install and never leaves an
/// unfinished one without rolling its profile back: exactly one of the two.
pub proof fn lemma_recovery_finishes_or_rolls_back(j: PendingInstallJournal, active: Option<ManagedState>, previous_files_match: bool)
    ensures
        recovery_plan_spec(j, active, previous_files_match).finished != recovery_plan_spec(j, active, previous_files_match).rollback_profile,
        recovery_plan_spec(j, active, previous_files_match).finished ==> !recovery_plan_spec(j, active, previous_files_match).undo_new_install
            && !recovery_plan_spec(j, active, previous_files_match).restore_previous,
        j.completed ==> recovery_plan_spec(j, active, previous_files_match).finished,
{
}

/// The error of a recovery whose steps failed.
pub open spec fn recovery_error_spec(errors: Seq<Seq<char>>) -> Option<Seq<char>> {
    if errors.len() == 0 {
        None
    } else {
        Some("Interrupted install recovery could not finish; no further files were changed: "@ + join_with(errors, "; "@))
    }
}

/// The error `recover_interrupted_install` reports for its failed steps.
pub fn recovery_error(errors: &Vec<String>) -> (r: Option<String>)
    ensures
        match r {
            Some(m) => recovery_error_spec(views(errors@)) == Some(m@),
            None => recovery_error_spec(views(errors@)) is None,
        },
{
    if errors.len() == 0 {
        return None;
    }
    let joined = join_strings(errors.as_slice(), "; ");
    Some(string_from_chars(&concat_chars(
        &chars_of("Interrupted install recovery could not finish; no further files were changed: "),
        &chars_of(joined.as_str()),
    )))
}

/// A game-directory journal left by an older install is already committed
/// when the branch's active state has its backup directory.
pub fn legacy_journal_committed(journal_backup_dir: &str, active: &Option<ManagedState>) -> (r: bool)
    ensures
        r == (active matches Some(a) && a.backup_dir@ == journal_backup_dir@),
{
    match active {
        Some(a) => chars_eq(&chars_of(a.backup_dir.as_str()), &chars_of(journal_backup_dir)),
        None => false,
    }
}


/// Recovery of an unfinished install restores the previous install unless
/// it is still the active one with its files intact, whatever the new state
/// is; and it restores nothing else. An install is finished exactly when
/// the journal says so or the active state is the new one.
pub proof fn lemma_unfinished_recovery_restores_previous(
    j: PendingInstallJournal,
    active: Option<ManagedState>,
    previous_files_match: bool,
)
    ensures
        recovery_plan_spec(j, active, previous_files_match).finished <==> (j.completed || (j.new_state is Some
            && active is Some && active->0.backup_dir@ == j.new_state->0.backup_dir@)),
        !recovery_plan_spec(j, active, previous_files_match).finished && j.previous_install is Some && !(active is Some
            && active->0.backup_dir@ == j.previous_install->0.state.backup_dir@ && previous_files_match) ==> recovery_plan_spec(
            j,
            active,
            previous_files_match,
        ).restore_previous,
        recovery_plan_spec(j, active, previous_files_match).restore_previous ==> j.previous_install is Some && !(
        active is Some && active->0.backup_dir@ == j.previous_install->0.state.backup_dir@ && previous_files_match),
        !recovery_plan_spec(j, active, previous_files_match).finished ==> recovery_plan_spec(
            j,
            active,
            previous_files_match,
        ).undo_new_install == (j.new_state is Some),
{
}

} // verus!
