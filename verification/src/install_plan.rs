//! The install request and the dry-run plan: what an install checks before
//! it starts, and how the plan reports each file it would change.

use vstd::prelude::*;
use crate::campaign_profile::{relative_under, ProgressKeyChange};
use crate::catalog::{normalize_sha256, sha256_outcome, size_mismatch_error};
use crate::paths::join_path;
use crate::state::{campaign_id_error, campaign_id_ok, validate_campaign_id, ManagedFile};
use crate::text::{chars_of, concat_chars, owned, starts_with, starts_with_exec, string_from_chars, trim, trim_exec};

verus! {

/// The largest package archive CCM accepts.
pub const MAX_ARCHIVE_BYTES: u64 = 2147483648;

/// A request to plan or apply the install of one campaign package.
#[derive(Debug, Clone, PartialEq, Eq)]
pub struct InstallRequest {
    pub campaign_id: String,
    pub title: String,
    pub author: String,
    pub version: String,
    pub profile_dir: Option<String>,
    pub archive_source: String,
    pub sha256: String,
    pub package_size: Option<u64>,
    pub game_dir: String,
}

/// Which command a request is checked for.
#[derive(Debug, Clone, PartialEq, Eq)]
pub enum Operation {
    Plan,
    Install,
    Restore,
}

pub open spec fn profile_required_error(op: Operation) -> Seq<char> {
    match op {
        Operation::Plan => "Choose the exact StarCraft II account profile before reviewing a live install."@,
        Operation::Install => "Choose the exact StarCraft II account profile with --profile-dir before applying a live install."@,
        Operation::Restore => "Choose the exact StarCraft II account profile with --profile-dir before restoring a live campaign."@,
    }
}

pub open spec fn given(profile_dir: Option<Seq<char>>) -> bool {
    profile_dir matches Some(p) && trim(p).len() > 0
}

/// A live game (one that looks like StarCraft II) is only changed for an
/// explicitly chosen account profile.
pub fn require_profile_for_live(op: Operation, looks_like_starcraft: bool, profile_dir: Option<&str>) -> (r: Result<(), String>)
    ensures
        r is Ok <==> !looks_like_starcraft || given(match profile_dir {
            Some(p) => Some(p@),
            None => None,
        }),
        r matches Err(e) ==> e@ == profile_required_error(op),
{
    let chosen = match profile_dir {
        Some(p) => trim_exec(&chars_of(p)).len() > 0,
        None => false,
    };
    if looks_like_starcraft && !chosen {
        return Err(match op {
            Operation::Plan => owned("Choose the exact StarCraft II account profile before reviewing a live install."),
            Operation::Install => owned(
                "Choose the exact StarCraft II account profile with --profile-dir before applying a live install.",
            ),
            Operation::Restore => owned(
                "Choose the exact StarCraft II account profile with --profile-dir before restoring a live campaign.",
            ),
        });
    }
    Ok(())
}

/// The request's own fields: a valid campaign ID and a title.
pub open spec fn request_fields_outcome(campaign_id: Seq<char>, title: Seq<char>) -> Result<(), Seq<char>> {
    if !campaign_id_ok(campaign_id) {
        Err(campaign_id_error())
    } else if trim(title).len() == 0 {
        Err("Campaign title is required."@)
    } else {
        Ok(())
    }
}

/// The first checks of `plan_campaign_install` and `install_campaign`.
pub fn check_request_fields(request: &InstallRequest) -> (r: Result<(), String>)
    ensures
        match r {
            Ok(_) => request_fields_outcome(request.campaign_id@, request.title@) is Ok,
            Err(e) => request_fields_outcome(request.campaign_id@, request.title@) == Err::<(), Seq<char>>(e@),
        },
{
    validate_campaign_id(request.campaign_id.as_str())?;
    if trim_exec(&chars_of(request.title.as_str())).len() == 0 {
        return Err(owned("Campaign title is required."));
    }
    Ok(())
}

/// The archive checks of the dry run: the declared size, the size limit,
/// and the catalog hash against the archive's hash.
pub open spec fn archive_outcome(declared_size: Option<u64>, size: u64, archive_sha256: Seq<char>, declared_sha256: Seq<char>) -> Result<
    (),
    Seq<char>,
> {
    if !(declared_size is None || declared_size == Some(size)) {
        Err(size_mismatch_error())
    } else if size > MAX_ARCHIVE_BYTES {
        Err("Package is larger than the allowed archive size."@)
    } else {
        match sha256_outcome(declared_sha256) {
            Err(e) => Err(e),
            Ok(h) => if archive_sha256 != h {
                Err("The local archive does not match the catalog SHA-256. No files were changed."@)
            } else {
                Ok(())
            },
        }
    }
}

/// `plan_campaign_install`'s checks of the archive it read.
pub fn check_archive(declared_size: Option<u64>, size: u64, archive_sha256: &str, declared_sha256: &str) -> (r: Result<(), String>)
    ensures
        match r {
            Ok(_) => archive_outcome(declared_size, size, archive_sha256@, declared_sha256@) is Ok,
            Err(e) => archive_outcome(declared_size, size, archive_sha256@, declared_sha256@) == Err::<(), Seq<char>>(e@),
        },
{
    crate::catalog::validate_declared_package_size(declared_size, size)?;
    if size > MAX_ARCHIVE_BYTES {
        return Err(owned("Package is larger than the allowed archive size."));
    }
    let expected = normalize_sha256(declared_sha256)?;
    if !crate::text::chars_eq(&chars_of(archive_sha256), &chars_of(expected.as_str())) {
        return Err(owned("The local archive does not match the catalog SHA-256. No files were changed."));
    }
    Ok(())
}

/// `update-existing-install` when a managed state is found, else `fresh-install`.
pub fn update_kind(has_previous_state: bool) -> (r: String)
    ensures
        r@ == if has_previous_state { "update-existing-install"@ } else { "fresh-install"@ },
{
    if has_previous_state {
        owned("update-existing-install")
    } else {
        owned("fresh-install")
    }
}

// ----------------------------------------------------------------------
// Planned file changes
// ----------------------------------------------------------------------

/// One profile file a switch snapshots or restores.
#[derive(Debug, Clone, PartialEq, Eq)]
pub struct ProgressFilePlan {
    pub relative_path: String,
    pub source: String,
    pub destination: String,
    pub kind: String,
    pub action: String,
    pub size: u64,
    pub sha256: String,
    pub detail: Option<String>,
}

/// One game file an install changes.
#[derive(Debug, Clone, PartialEq, Eq)]
pub struct FileChangePlan {
    pub source: String,
    pub destination: String,
    pub operation: String,
    pub kind: String,
    pub size: u64,
    pub sha256: Option<String>,
    pub detail: Option<String>,
}

/// One bank a switch moves as a whole.
#[derive(Debug, Clone, PartialEq, Eq)]
pub struct BankPlan {
    pub relative_path: String,
    pub source: String,
    pub destination: String,
    pub sections: usize,
    pub keys: usize,
    pub keys_changed_in_place: usize,
    pub note: String,
}

/// The full review of an install before it is applied.
#[derive(Debug, Clone, PartialEq, Eq)]
pub struct DryRunPlan {
    pub operation_id: String,
    pub campaign_id: String,
    pub title: String,
    pub game_directory: String,
    pub target_path: String,
    pub archive_size: u64,
    pub archive_sha256: String,
    pub update_kind: String,
    pub previous_install_manifest: Option<String>,
    pub previous_install_campaign_id: Option<String>,
    pub previous_install_version: Option<String>,
    pub previous_install_sha256: Option<String>,
    pub previous_install_files: usize,
    pub package_files: usize,
    pub package_bytes: u64,
    pub campaign_files_to_clear: usize,
    pub campaign_bytes_to_clear: u64,
    pub dependency_roots: Vec<String>,
    pub dependency_files_to_replace: usize,
    pub files_to_backup: usize,
    pub profile_path: Option<String>,
    pub profile_store_path: Option<String>,
    pub profile_files_to_snapshot: usize,
    pub profile_bytes_to_snapshot: u64,
    pub profile_files_to_restore: usize,
    pub profile_bytes_to_restore: u64,
    pub progress_updates: usize,
    pub progress_files: Vec<ProgressFilePlan>,
    pub progress_keys: Vec<ProgressKeyChange>,
    pub bank_plans: Vec<BankPlan>,
    pub file_changes: Vec<FileChangePlan>,
    pub warnings: Vec<String>,
}

pub open spec fn opt_text(o: Option<String>) -> Option<Seq<char>> {
    match o {
        Some(s) => Some(s@),
        None => None,
    }
}

/// The plan of a profile file under
/// `source_root`, to be copied to the same relative path under
/// `destination_root`.
pub fn progress_file_plan(
    source_root: &str,
    path: &str,
    kind: &str,
    action: &str,
    detail: Option<String>,
    destination_root: &str,
    size: u64,
    sha256: String,
) -> (r: Result<ProgressFilePlan, String>)
    ensures
        match r {
            Ok(p) => relative_under(source_root@, path@) == Some(p.relative_path@) && p.source@ == path@
                && p.destination@ == join_path(destination_root@, p.relative_path@) && p.kind@ == kind@ && p.action@
                == action@ && p.size == size && p.sha256 == sha256 && p.detail == detail,
            Err(e) => relative_under(source_root@, path@) is None && e@ == "Profile path escaped its root."@,
        },
{
    let relative = match crate::campaign_profile::relative_profile_path(source_root, path) {
        Some(r) => r,
        None => {
            return Err(owned("Profile path escaped its root."));
        },
    };
    let destination = crate::paths::join_path_exec(&chars_of(destination_root), &chars_of(relative.as_str()));
    Ok(ProgressFilePlan {
        relative_path: relative,
        source: owned(path),
        destination: string_from_chars(&destination),
        kind: owned(kind),
        action: owned(action),
        size,
        sha256,
        detail,
    })
}

/// A bank moved as a whole: `keys_changed_in_place` is always zero.
pub fn bank_plan(relative_path: &str, source: &str, destination: &str, shape: (usize, usize), note: &str) -> (r: BankPlan)
    ensures
        r.relative_path@ == relative_path@,
        r.source@ == source@,
        r.destination@ == destination@,
        r.sections == shape.0,
        r.keys == shape.1,
        r.keys_changed_in_place == 0,
        r.note@ == note@,
{
    BankPlan {
        relative_path: owned(relative_path),
        source: owned(source),
        destination: owned(destination),
        sections: shape.0,
        keys: shape.1,
        keys_changed_in_place: 0,
        note: owned(note),
    }
}

/// How the dry run describes a file of the previous managed install.
pub open spec fn previous_change_text(original_existed: bool) -> (Seq<char>, Seq<char>) {
    if original_existed {
        ("restore previous original before update"@, "restored from the previous installation's original-file backup"@)
    } else {
        ("remove previous package file before update"@, "verified against the previous managed state before changing it"@)
    }
}

/// The change that undoes one file of the previous managed install.
pub fn previous_file_change(file: &ManagedFile, source: &str, destination: &str, size: u64, sha256: Option<String>) -> (r: FileChangePlan)
    ensures
        r.source@ == source@,
        r.destination@ == destination@,
        r.operation@ == previous_change_text(file.original_existed).0,
        r.kind@ == "previous managed install"@,
        r.size == size,
        r.sha256 == sha256,
        opt_text(r.detail) == Some(previous_change_text(file.original_existed).1),
{
    let (operation, detail) = if file.original_existed {
        ("restore previous original before update", "restored from the previous installation's original-file backup")
    } else {
        ("remove previous package file before update", "verified against the previous managed state before changing it")
    };
    FileChangePlan {
        source: owned(source),
        destination: owned(destination),
        operation: owned(operation),
        kind: owned("previous managed install"),
        size,
        sha256,
        detail: Some(owned(detail)),
    }
}

/// An existing game file snapshotted before it is cleared or replaced.
pub fn snapshot_file_change(source: &str, relative: &str, backup_root: &str, size: u64, sha256: String) -> (r: FileChangePlan)
    ensures
        r.source@ == source@,
        r.destination@ == join_path(backup_root@, relative@),
        r.operation@ == "snapshot before clear/replace"@,
        r.kind@ == (if crate::state::starts_with_component(relative@, "Mods"@) {
            "existing dependency"@
        } else {
            "existing campaign file"@
        }),
        r.size == size,
        opt_text(r.sha256) == Some(sha256@),
        r.detail is None,
{
    let kind = if crate::state::starts_with_component_exec(relative, "Mods") {
        owned("existing dependency")
    } else {
        owned("existing campaign file")
    };
    FileChangePlan {
        source: owned(source),
        destination: string_from_chars(&crate::paths::join_path_exec(&chars_of(backup_root), &chars_of(relative))),
        operation: owned("snapshot before clear/replace"),
        kind,
        size,
        sha256: Some(sha256),
        detail: None,
    }
}

/// A package file to be installed from the archive.
pub fn package_file_change(archive: &str, member: &str, game_root: &str, destination: &str, size: u64, archive_sha256: &str) -> (r: FileChangePlan)
    ensures
        r.source@ == archive@ + " :: "@ + member@,
        r.destination@ == join_path(game_root@, destination@),
        r.operation@ == "install package file"@,
        r.kind@ == (if starts_with(destination@, "Mods/"@) { "package dependency"@ } else { "package campaign file"@ }),
        r.size == size,
        r.sha256 is None,
        opt_text(r.detail) == Some("archive sha256 "@ + archive_sha256@),
{
    let source = concat_chars(&concat_chars(&chars_of(archive), &chars_of(" :: ")), &chars_of(member));
    let kind = if starts_with_exec(&chars_of(destination), &chars_of("Mods/")) {
        owned("package dependency")
    } else {
        owned("package campaign file")
    };
    FileChangePlan {
        source: string_from_chars(&source),
        destination: string_from_chars(&crate::paths::join_path_exec(&chars_of(game_root), &chars_of(destination))),
        operation: owned("install package file"),
        kind,
        size,
        sha256: None,
        detail: Some(string_from_chars(&concat_chars(&chars_of("archive sha256 "), &chars_of(archive_sha256)))),
    }
}

// ----------------------------------------------------------------------
// Totals and warnings
// ----------------------------------------------------------------------

pub open spec fn is_snapshot(f: ProgressFilePlan) -> bool {
    starts_with(f.action@, "snapshot"@)
}

pub open spec fn is_restore(f: ProgressFilePlan) -> bool {
    starts_with(f.action@, "restore"@)
}

pub open spec fn is_progress(f: ProgressFilePlan) -> bool {
    f.kind@ == "campaign-progress"@
}

/// How many files of `fs` satisfy `p`, and their total size.
pub open spec fn tally(fs: Seq<ProgressFilePlan>, p: spec_fn(ProgressFilePlan) -> bool) -> (nat, nat)
    decreases fs.len(),
{
    if fs.len() == 0 {
        (0, 0)
    } else {
        let t = tally(fs.drop_last(), p);
        if p(fs.last()) {
            (t.0 + 1, t.1 + fs.last().size as nat)
        } else {
            t
        }
    }
}

/// The dry run's profile totals: files and bytes to snapshot, files and
/// bytes to restore, and progress files updated.
#[derive(Debug, Clone, PartialEq, Eq)]
pub struct ProfileTotals {
    pub files_to_snapshot: usize,
    pub bytes_to_snapshot: u64,
    pub files_to_restore: usize,
    pub bytes_to_restore: u64,
    pub progress_updates: usize,
}

proof fn lemma_tally_bounds(fs: Seq<ProgressFilePlan>, p: spec_fn(ProgressFilePlan) -> bool, n: int)
    requires
        0 <= n <= fs.len(),
    ensures
        tally(fs.take(n), p).0 <= n,
        tally(fs.take(n), p).1 <= tally(fs, p).1,
    decreases fs.len() - n,
{
    if n < fs.len() {
        lemma_tally_bounds(fs, p, n + 1);
        assert(fs.take(n + 1).drop_last() =~= fs.take(n));
    } else {
        assert(fs.take(n) =~= fs);
    }
    lemma_tally_count(fs, p, n);
}

proof fn lemma_tally_count(fs: Seq<ProgressFilePlan>, p: spec_fn(ProgressFilePlan) -> bool, n: int)
    requires
        0 <= n <= fs.len(),
    ensures
        tally(fs.take(n), p).0 <= n,
    decreases n,
{
    if n > 0 {
        assert(fs.take(n).drop_last() =~= fs.take(n - 1));
        lemma_tally_count(fs, p, n - 1);
    }
}

/// The profile totals of a dry run; the byte totals must fit in a `u64`.
pub fn profile_totals(files: &Vec<ProgressFilePlan>) -> (r: ProfileTotals)
    requires
        tally(files@, |f: ProgressFilePlan| is_snapshot(f)).1 <= u64::MAX,
        tally(files@, |f: ProgressFilePlan| is_restore(f)).1 <= u64::MAX,
    ensures
        r.files_to_snapshot == tally(files@, |f: ProgressFilePlan| is_snapshot(f)).0,
        r.bytes_to_snapshot == tally(files@, |f: ProgressFilePlan| is_snapshot(f)).1,
        r.files_to_restore == tally(files@, |f: ProgressFilePlan| is_restore(f)).0,
        r.bytes_to_restore == tally(files@, |f: ProgressFilePlan| is_restore(f)).1,
        r.progress_updates == tally(files@, |f: ProgressFilePlan| is_progress(f)).0,
{
    let ghost ps = |f: ProgressFilePlan| is_snapshot(f);
    let ghost pr = |f: ProgressFilePlan| is_restore(f);
    let ghost pp = |f: ProgressFilePlan| is_progress(f);
    let mut t = ProfileTotals { files_to_snapshot: 0, bytes_to_snapshot: 0, files_to_restore: 0, bytes_to_restore: 0, progress_updates: 0 };
    let mut i: usize = 0;
    while i < files.len()
        invariant
            i <= files.len(),
            ps == (|f: ProgressFilePlan| is_snapshot(f)),
            pr == (|f: ProgressFilePlan| is_restore(f)),
            pp == (|f: ProgressFilePlan| is_progress(f)),
            tally(files@, ps).1 <= u64::MAX,
            tally(files@, pr).1 <= u64::MAX,
            t.files_to_snapshot == tally(files@.take(i as int), ps).0,
            t.bytes_to_snapshot == tally(files@.take(i as int), ps).1,
            t.files_to_restore == tally(files@.take(i as int), pr).0,
            t.bytes_to_restore == tally(files@.take(i as int), pr).1,
            t.progress_updates == tally(files@.take(i as int), pp).0,
        decreases files.len() - i,
    {
        proof {
            assert(files@.take(i as int + 1).drop_last() =~= files@.take(i as int));
            assert(files@.take(i as int + 1).last() == files@[i as int]);
            lemma_tally_bounds(files@, ps, i as int + 1);
            lemma_tally_bounds(files@, pr, i as int + 1);
            lemma_tally_bounds(files@, pp, i as int + 1);
        }
        let f = &files[i];
        let action = chars_of(f.action.as_str());
        if starts_with_exec(&action, &chars_of("snapshot")) {
            t.files_to_snapshot = t.files_to_snapshot + 1;
            t.bytes_to_snapshot = t.bytes_to_snapshot + f.size;
        }
        if starts_with_exec(&action, &chars_of("restore")) {
            t.files_to_restore = t.files_to_restore + 1;
            t.bytes_to_restore = t.bytes_to_restore + f.size;
        }
        if crate::text::chars_eq(&chars_of(f.kind.as_str()), &chars_of("campaign-progress")) {
            t.progress_updates = t.progress_updates + 1;
        }
        i = i + 1;
    }
    proof {
        assert(files@.take(files@.len() as int) =~= files@);
    }
    t
}

/// Most of the archive's files lie outside the installed layout: more than
/// half of them were left out of the plan.
pub open spec fn most_files_skipped(archive_files: nat, matched_files: nat) -> bool {
    archive_files > 2 * matched_files
}

/// The coverage warning for an archive whose files were mostly left out.
pub open spec fn coverage_warning(archive_files: nat, matched_files: nat) -> Seq<char> {
    crate::text::decimal((archive_files - matched_files) as nat) + " of "@ + crate::text::decimal(archive_files)
        + " archive files were skipped because they lie outside the package's installed layout."@
}

/// The warnings of a dry run, in order: it changed nothing, the game must be
/// closed, what a previous install means, the profile's warnings, the
/// dependency note, and the coverage warning when most archive files are
/// outside the installed layout.
pub open spec fn dry_run_warnings_spec(
    previous_files: Option<nat>,
    previous_has_manifest: bool,
    profile_warnings: Seq<Seq<char>>,
    has_dependency_roots: bool,
    archive_files: nat,
    matched_files: nat,
) -> Seq<Seq<char>> {
    seq![
        "Dry-run only: no campaign, save, bank, or dependency files were changed."@,
        "Applying this plan later requires StarCraft II to be fully closed."@,
    ] + match previous_files {
        Some(n) => seq![
            "Previous managed install found: "@ + crate::text::decimal(n)
                + " package files will be restored or removed before the new package is copied."@,
        ] + if previous_has_manifest {
            Seq::empty()
        } else {
            seq![
                "Previous install uses the legacy managed state; the next successful install will write an exact installed manifest."@,
            ]
        },
        None => Seq::empty(),
    } + profile_warnings + if has_dependency_roots {
        seq!["Package dependencies will be placed under the game Mods directory."@]
    } else {
        Seq::empty()
    } + if most_files_skipped(archive_files, matched_files) {
        seq![coverage_warning(archive_files, matched_files)]
    } else {
        Seq::empty()
    }
}

fn push_text(v: &mut Vec<String>, s: &str)
    ensures
        crate::text::views(final(v)@) == crate::text::views(old(v)@).push(s@),
{
    let ghost before = v@;
    v.push(owned(s));
    proof {
        assert(crate::text::views(v@) =~= crate::text::views(before).push(s@));
    }
}

/// The warnings of `plan_campaign_install`; `previous_files` is the number of
/// package files of the previous managed install, if there is one;
/// `archive_files` counts the archive's files and `matched_files` those the
/// plan installs.
pub fn dry_run_warnings(
    previous_files: Option<usize>,
    previous_has_manifest: bool,
    profile_warnings: Vec<String>,
    has_dependency_roots: bool,
    archive_files: usize,
    matched_files: usize,
) -> (r: Vec<String>)
    ensures
        crate::text::views(r@) == dry_run_warnings_spec(
            match previous_files {
                Some(n) => Some(n as nat),
                None => None,
            },
            previous_has_manifest,
            crate::text::views(profile_warnings@),
            has_dependency_roots,
            archive_files as nat,
            matched_files as nat,
        ),
{
    let mut w: Vec<String> = Vec::new();
    push_text(&mut w, "Dry-run only: no campaign, save, bank, or dependency files were changed.");
    push_text(&mut w, "Applying this plan later requires StarCraft II to be fully closed.");
    let ghost base = crate::text::views(w@);
    if let Some(n) = previous_files {
        let m = concat_chars(&chars_of("Previous managed install found: "), &crate::text::decimal_exec(n as u64));
        let m = concat_chars(&m, &chars_of(" package files will be restored or removed before the new package is copied."));
        let ghost before = w@;
        w.push(string_from_chars(&m));
        proof {
            assert(crate::text::views(w@) =~= crate::text::views(before).push(m@));
        }
        if !previous_has_manifest {
            push_text(
                &mut w,
                "Previous install uses the legacy managed state; the next successful install will write an exact installed manifest.",
            );
        }
    }
    let ghost mid = crate::text::views(w@);
    let mut i: usize = 0;
    while i < profile_warnings.len()
        invariant
            i <= profile_warnings.len(),
            crate::text::views(w@) == mid + crate::text::views(profile_warnings@).take(i as int),
        decreases profile_warnings.len() - i,
    {
        let ghost before = w@;
        w.push(owned(profile_warnings[i].as_str()));
        proof {
            assert(crate::text::views(w@) =~= crate::text::views(before).push(profile_warnings@[i as int]@));
            assert(crate::text::views(profile_warnings@).take(i as int + 1) =~= crate::text::views(profile_warnings@).take(
                i as int,
            ).push(profile_warnings@[i as int]@));
        }
        i = i + 1;
    }
    proof {
        assert(crate::text::views(profile_warnings@).take(profile_warnings@.len() as int) =~= crate::text::views(
            profile_warnings@,
        ));
    }
    if has_dependency_roots {
        push_text(&mut w, "Package dependencies will be placed under the game Mods directory.");
    }
    let ghost before_coverage = w@;
    if matched_files < archive_files && archive_files - matched_files > matched_files {
        let skipped = archive_files - matched_files;
        let m = concat_chars(&crate::text::decimal_exec(skipped as u64), &chars_of(" of "));
        let m = concat_chars(&m, &crate::text::decimal_exec(archive_files as u64));
        let m = concat_chars(
            &m,
            &chars_of(" archive files were skipped because they lie outside the package's installed layout."),
        );
        proof {
            assert(m@ == coverage_warning(archive_files as nat, matched_files as nat));
        }
        w.push(string_from_chars(&m));
        proof {
            assert(crate::text::views(w@) =~= crate::text::views(before_coverage).push(m@));
        }
    }
    proof {
        assert(crate::text::views(w@) =~= dry_run_warnings_spec(
            match previous_files {
                Some(n) => Some(n as nat),
                None => None,
            },
            previous_has_manifest,
            crate::text::views(profile_warnings@),
            has_dependency_roots,
            archive_files as nat,
            matched_files as nat,
        ));
    }
    w
}

} // verus!
