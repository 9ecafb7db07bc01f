//! The dry run of an install, assembled from what the planner found: the
//! previous managed install, the game files that would be snapshotted, the
//! package files that would be copied, and the profile plan.

use vstd::prelude::*;
use crate::install::PackageFilePlan;
use crate::install_plan::{
    dry_run_warnings, dry_run_warnings_spec, is_progress, is_restore, is_snapshot, opt_text, package_file_change,
    previous_change_text, previous_file_change, profile_totals, snapshot_file_change, tally, update_kind, DryRunPlan,
    FileChangePlan, ProgressFilePlan,
};
use crate::paths::join_path;
use crate::profile_core::InstalledManifest;
use crate::profile_switch::ProfilePlan;
use crate::state::{starts_with_component, ManagedFile};
use crate::text::{owned, starts_with, views};

verus! {

/// A game file the dry run would snapshot: its path, its path relative to
/// the game directory, its size and SHA-256.
#[derive(Debug, Clone, PartialEq, Eq)]
pub struct FoundGameFile {
    pub path: String,
    pub relative: String,
    pub size: u64,
    pub sha256: String,
}

/// A file of the previous managed install: where its bytes are read from
/// (the original's backup, or the installed file), where it lies in the
/// game, and the size and hash reported for it.
#[derive(Debug, Clone, PartialEq, Eq)]
pub struct PreviousFileFacts {
    pub file: ManagedFile,
    pub source: String,
    pub destination: String,
    pub size: u64,
    pub sha256: Option<String>,
}

/// The previous managed install of the branch.
#[derive(Debug, Clone, PartialEq, Eq)]
pub struct PreviousInstallFacts {
    pub campaign_id: String,
    pub version: String,
    pub files: Vec<PreviousFileFacts>,
    pub manifest_path: String,
    pub manifest: Option<InstalledManifest>,
}

/// Everything the dry run reports on.
#[derive(Debug, Clone, PartialEq, Eq)]
pub struct DryRunFacts {
    pub operation_id: String,
    pub campaign_id: String,
    pub title: String,
    pub game_directory: String,
    pub target_path: String,
    pub archive: String,
    pub archive_size: u64,
    pub archive_sha256: String,
    /// The number of files (not folders) the archive holds.
    pub archive_files: usize,
    pub previous: Option<PreviousInstallFacts>,
    pub campaign_files: Vec<FoundGameFile>,
    pub dependency_files: Vec<FoundGameFile>,
    pub backup_root: String,
    pub package_files: Vec<PackageFilePlan>,
    pub dependency_roots: Vec<String>,
    pub profile: ProfilePlan,
}

// ----------------------------------------------------------------------
// The plan, as a specification
// ----------------------------------------------------------------------

pub open spec fn is_previous_change(c: FileChangePlan, f: PreviousFileFacts) -> bool {
    &&& c.source@ == f.source@
    &&& c.destination@ == f.destination@
    &&& c.operation@ == previous_change_text(f.file.original_existed).0
    &&& c.kind@ == "previous managed install"@
    &&& c.size == f.size
    &&& c.sha256 == f.sha256
    &&& opt_text(c.detail) == Some(previous_change_text(f.file.original_existed).1)
}

pub open spec fn is_snapshot_change(c: FileChangePlan, g: FoundGameFile, backup_root: Seq<char>) -> bool {
    &&& c.source@ == g.path@
    &&& c.destination@ == join_path(backup_root, g.relative@)
    &&& c.operation@ == "snapshot before clear/replace"@
    &&& c.kind@ == (if starts_with_component(g.relative@, "Mods"@) {
        "existing dependency"@
    } else {
        "existing campaign file"@
    })
    &&& c.size == g.size
    &&& opt_text(c.sha256) == Some(g.sha256@)
    &&& c.detail is None
}

pub open spec fn is_package_change(
    c: FileChangePlan,
    p: PackageFilePlan,
    archive: Seq<char>,
    game_root: Seq<char>,
    archive_sha256: Seq<char>,
) -> bool {
    &&& c.source@ == archive + " :: "@ + p.source@
    &&& c.destination@ == join_path(game_root, p.destination@)
    &&& c.operation@ == "install package file"@
    &&& c.kind@ == (if starts_with(p.destination@, "Mods/"@) { "package dependency"@ } else { "package campaign file"@ })
    &&& c.size == p.size
    &&& c.sha256 is None
    &&& opt_text(c.detail) == Some("archive sha256 "@ + archive_sha256)
}

pub open spec fn previous_files(facts: DryRunFacts) -> Seq<PreviousFileFacts> {
    match facts.previous {
        Some(p) => p.files@,
        None => Seq::empty(),
    }
}

/// The package files of the previous install (those with an installed hash).
pub open spec fn installed_count(fs: Seq<PreviousFileFacts>) -> nat
    decreases fs.len(),
{
    if fs.len() == 0 {
        0
    } else {
        installed_count(fs.drop_last()) + if fs.last().file.installed_sha256 is Some { 1nat } else { 0nat }
    }
}

pub open spec fn game_bytes(fs: Seq<FoundGameFile>) -> nat
    decreases fs.len(),
{
    if fs.len() == 0 {
        0
    } else {
        game_bytes(fs.drop_last()) + fs.last().size as nat
    }
}

pub open spec fn package_bytes(fs: Seq<PackageFilePlan>) -> nat
    decreases fs.len(),
{
    if fs.len() == 0 {
        0
    } else {
        package_bytes(fs.drop_last()) + fs.last().size as nat
    }
}

/// The previous install's campaign: its manifest's, else its state's.
pub open spec fn previous_campaign_id(facts: DryRunFacts) -> Option<Seq<char>> {
    match facts.previous {
        None => None,
        Some(p) => match p.manifest {
            Some(m) => Some(m.campaign_id@),
            None => Some(p.campaign_id@),
        },
    }
}

/// The previous install's version: its manifest's, else its state's when
/// the state has one.
pub open spec fn previous_version(facts: DryRunFacts) -> Option<Seq<char>> {
    match facts.previous {
        None => None,
        Some(p) => match p.manifest {
            Some(m) => Some(m.version@),
            None => if p.version@.len() > 0 {
                Some(p.version@)
            } else {
                None
            },
        },
    }
}

pub open spec fn previous_sha256(facts: DryRunFacts) -> Option<Seq<char>> {
    match facts.previous {
        Some(p) => match p.manifest {
            Some(m) => Some(m.package_sha256@),
            None => None,
        },
        None => None,
    }
}

/// The sizes the dry run adds up fit in a `u64`.
pub open spec fn totals_fit(facts: DryRunFacts) -> bool {
    &&& package_bytes(facts.package_files@) <= u64::MAX
    &&& game_bytes(facts.campaign_files@) <= u64::MAX
    &&& facts.campaign_files@.len() + facts.dependency_files@.len() <= usize::MAX
    &&& tally(facts.profile.files@, |f: ProgressFilePlan| is_snapshot(f)).1 <= u64::MAX
    &&& tally(facts.profile.files@, |f: ProgressFilePlan| is_restore(f)).1 <= u64::MAX
}

// ----------------------------------------------------------------------
// The assembly
// ----------------------------------------------------------------------

fn count_installed(files: &Vec<PreviousFileFacts>) -> (r: usize)
    ensures
        r == installed_count(files@),
{
    let mut n: usize = 0;
    let mut i: usize = 0;
    while i < files.len()
        invariant
            i <= files@.len(),
            n == installed_count(files@.take(i as int)),
            n <= i,
        decreases files.len() - i,
    {
        proof {
            assert(files@.take(i as int + 1).drop_last() =~= files@.take(i as int));
        }
        if files[i].file.installed_sha256.is_some() {
            n = n + 1;
        }
        i = i + 1;
    }
    proof {
        assert(files@.take(files@.len() as int) =~= files@);
    }
    n
}

proof fn lemma_game_bytes_prefix(fs: Seq<FoundGameFile>, i: int)
    requires
        0 <= i <= fs.len(),
    ensures
        game_bytes(fs.take(i)) <= game_bytes(fs),
    decreases fs.len() - i,
{
    if i < fs.len() {
        lemma_game_bytes_prefix(fs, i + 1);
        assert(fs.take(i + 1).drop_last() =~= fs.take(i));
    } else {
        assert(fs.take(i) =~= fs);
    }
}

proof fn lemma_package_bytes_prefix(fs: Seq<PackageFilePlan>, i: int)
    requires
        0 <= i <= fs.len(),
    ensures
        package_bytes(fs.take(i)) <= package_bytes(fs),
    decreases fs.len() - i,
{
    if i < fs.len() {
        lemma_package_bytes_prefix(fs, i + 1);
        assert(fs.take(i + 1).drop_last() =~= fs.take(i));
    } else {
        assert(fs.take(i) =~= fs);
    }
}

/// The total size of `found`.
fn total_size(found: &Vec<FoundGameFile>) -> (r: u64)
    requires
        game_bytes(found@) <= u64::MAX,
    ensures
        r == game_bytes(found@),
{
    let mut total: u64 = 0;
    let mut i: usize = 0;
    while i < found.len()
        invariant
            i <= found@.len(),
            game_bytes(found@) <= u64::MAX,
            total == game_bytes(found@.take(i as int)),
        decreases found.len() - i,
    {
        proof {
            assert(found@.take(i as int + 1).drop_last() =~= found@.take(i as int));
            lemma_game_bytes_prefix(found@, i as int + 1);
        }
        total = total + found[i].size;
        i = i + 1;
    }
    proof {
        assert(found@.take(found@.len() as int) =~= found@);
    }
    total
}

/// Adds a snapshot change for each of `found`.
fn push_snapshots(changes: &mut Vec<FileChangePlan>, found: &Vec<FoundGameFile>, backup_root: &str)
    ensures
        final(changes)@.len() == old(changes)@.len() + found@.len(),
        final(changes)@.take(old(changes)@.len() as int) == old(changes)@,
        forall|i: int|
            0 <= i < found@.len() ==> is_snapshot_change(
                #[trigger] final(changes)@[old(changes)@.len() + i],
                found@[i],
                backup_root@,
            ),
{
    let ghost start = changes@;
    let mut i: usize = 0;
    while i < found.len()
        invariant
            i <= found@.len(),
            changes@.len() == start.len() + i,
            changes@.take(start.len() as int) == start,
            forall|j: int|
                0 <= j < i ==> is_snapshot_change(#[trigger] changes@[start.len() + j], found@[j], backup_root@),
        decreases found.len() - i,
    {
        let g = &found[i];
        let c = snapshot_file_change(g.path.as_str(), g.relative.as_str(), backup_root, g.size, g.sha256.clone());
        let ghost before = changes@;
        changes.push(c);
        proof {
            assert(changes@.take(start.len() as int) =~= before.take(start.len() as int));
            assert forall|j: int| 0 <= j < i + 1 implies is_snapshot_change(
                #[trigger] changes@[start.len() + j],
                found@[j],
                backup_root@,
            ) by {
                if j < i {
                    assert(changes@[start.len() + j] == before[start.len() + j]);
                }
            }
        }
        i = i + 1;
    }
}

/// `plan_campaign_install`'s dry run from what it found: the changes to the
/// previous install's files, the snapshots of the branch's and the
/// dependencies' existing files, the package files to copy, the totals, the
/// profile plan and the warnings.
pub fn dry_run_plan(facts: DryRunFacts) -> (r: DryRunPlan)
    requires
        totals_fit(facts),
    ensures
        r.operation_id == facts.operation_id,
        r.campaign_id == facts.campaign_id,
        r.title == facts.title,
        r.game_directory == facts.game_directory,
        r.target_path == facts.target_path,
        r.archive_size == facts.archive_size,
        r.archive_sha256 == facts.archive_sha256,
        r.update_kind@ == if facts.previous is Some { "update-existing-install"@ } else { "fresh-install"@ },
        opt_text(r.previous_install_manifest) == match facts.previous {
            Some(p) => Some(p.manifest_path@),
            None => None,
        },
        opt_text(r.previous_install_campaign_id) == previous_campaign_id(facts),
        opt_text(r.previous_install_version) == previous_version(facts),
        opt_text(r.previous_install_sha256) == previous_sha256(facts),
        r.previous_install_files == installed_count(previous_files(facts)),
        r.package_files == facts.package_files@.len(),
        r.package_bytes == package_bytes(facts.package_files@),
        r.campaign_files_to_clear == facts.campaign_files@.len(),
        r.campaign_bytes_to_clear == game_bytes(facts.campaign_files@),
        r.dependency_roots == facts.dependency_roots,
        r.dependency_files_to_replace == facts.dependency_files@.len(),
        r.files_to_backup == facts.campaign_files@.len() + facts.dependency_files@.len(),
        r.profile_path == facts.profile.profile_path,
        r.profile_store_path == facts.profile.profile_store_path,
        r.profile_files_to_snapshot == tally(facts.profile.files@, |f: ProgressFilePlan| is_snapshot(f)).0,
        r.profile_bytes_to_snapshot == tally(facts.profile.files@, |f: ProgressFilePlan| is_snapshot(f)).1,
        r.profile_files_to_restore == tally(facts.profile.files@, |f: ProgressFilePlan| is_restore(f)).0,
        r.profile_bytes_to_restore == tally(facts.profile.files@, |f: ProgressFilePlan| is_restore(f)).1,
        r.progress_updates == tally(facts.profile.files@, |f: ProgressFilePlan| is_progress(f)).0,
        r.progress_files == facts.profile.files,
        r.progress_keys == facts.profile.progress_keys,
        r.bank_plans == facts.profile.bank_plans,
        ({
            let np = previous_files(facts).len();
            let nc = facts.campaign_files@.len();
            let nd = facts.dependency_files@.len();
            &&& r.file_changes@.len() == np + nc + nd + facts.package_files@.len()
            &&& forall|i: int| 0 <= i < np ==> is_previous_change(#[trigger] r.file_changes@[i], previous_files(facts)[i])
            &&& forall|i: int|
                0 <= i < nc ==> is_snapshot_change(
                    #[trigger] r.file_changes@[np + i],
                    facts.campaign_files@[i],
                    facts.backup_root@,
                )
            &&& forall|i: int|
                0 <= i < nd ==> is_snapshot_change(
                    #[trigger] r.file_changes@[np + nc + i],
                    facts.dependency_files@[i],
                    facts.backup_root@,
                )
            &&& forall|i: int|
                0 <= i < facts.package_files@.len() ==> is_package_change(
                    #[trigger] r.file_changes@[np + nc + nd + i],
                    facts.package_files@[i],
                    facts.archive@,
                    facts.game_directory@,
                    facts.archive_sha256@,
                )
        }),
        views(r.warnings@) == dry_run_warnings_spec(
            match facts.previous {
                Some(p) => Some(installed_count(p.files@)),
                None => None,
            },
            match facts.previous {
                Some(p) => p.manifest is Some,
                None => false,
            },
            views(facts.profile.warnings@),
            facts.dependency_roots@.len() > 0,
            facts.archive_files as nat,
            facts.package_files@.len(),
        ),
{
    let ghost prev = previous_files(facts);
    let DryRunFacts {
        operation_id,
        campaign_id,
        title,
        game_directory,
        target_path,
        archive,
        archive_size,
        archive_sha256,
        archive_files,
        previous,
        campaign_files,
        dependency_files,
        backup_root,
        package_files,
        dependency_roots,
        profile,
    } = facts;
    let mut changes: Vec<FileChangePlan> = Vec::new();
    let mut previous_install_files: usize = 0;
    let mut previous_manifest: Option<String> = None;
    let mut previous_id: Option<String> = None;
    let mut previous_version_text: Option<String> = None;
    let mut previous_sha: Option<String> = None;
    let mut previous_count: Option<usize> = None;
    let mut has_manifest = false;
    match &previous {
        Some(p) => {
            let mut i: usize = 0;
            while i < p.files.len()
                invariant
                    i <= p.files@.len(),
                    prev == p.files@,
                    changes@.len() == i,
                    forall|j: int| 0 <= j < i ==> is_previous_change(#[trigger] changes@[j], prev[j]),
                decreases p.files.len() - i,
            {
                let f = &p.files[i];
                let ghost before = changes@;
                changes.push(previous_file_change(&f.file, f.source.as_str(), f.destination.as_str(), f.size, f.sha256.clone()));
                proof {
                    assert forall|j: int| 0 <= j < i + 1 implies is_previous_change(#[trigger] changes@[j], prev[j]) by {
                        if j < i {
                            assert(changes@[j] == before[j]);
                        }
                    }
                }
                i = i + 1;
            }
            previous_install_files = count_installed(&p.files);
            previous_count = Some(previous_install_files);
            previous_manifest = Some(owned(p.manifest_path.as_str()));
            match &p.manifest {
                Some(m) => {
                    has_manifest = true;
                    previous_id = Some(owned(m.campaign_id.as_str()));
                    previous_version_text = Some(owned(m.version.as_str()));
                    previous_sha = Some(owned(m.package_sha256.as_str()));
                },
                None => {
                    previous_id = Some(owned(p.campaign_id.as_str()));
                    if !p.version.as_str().is_empty() {
                        previous_version_text = Some(owned(p.version.as_str()));
                    }
                },
            }
        },
        None => {},
    }
    let ghost np = changes@.len();
    let ghost after_previous = changes@;
    proof {
        assert(np == prev.len());
        assert forall|i: int| 0 <= i < np implies is_previous_change(#[trigger] after_previous[i], prev[i]) by {}
    }
    let campaign_bytes = total_size(&campaign_files);
    push_snapshots(&mut changes, &campaign_files, backup_root.as_str());
    let ghost after_campaign = changes@;
    push_snapshots(&mut changes, &dependency_files, backup_root.as_str());
    let ghost after_dependencies = changes@;
    let mut package_total: u64 = 0;
    let ghost start = changes@;
    let mut k: usize = 0;
    while k < package_files.len()
        invariant
            k <= package_files@.len(),
            package_bytes(package_files@) <= u64::MAX,
            changes@.len() == start.len() + k,
            changes@.take(start.len() as int) == start,
            forall|j: int|
                0 <= j < k ==> is_package_change(
                    #[trigger] changes@[start.len() + j],
                    package_files@[j],
                    archive@,
                    game_directory@,
                    archive_sha256@,
                ),
            package_total == package_bytes(package_files@.take(k as int)),
        decreases package_files.len() - k,
    {
        proof {
            assert(package_files@.take(k as int + 1).drop_last() =~= package_files@.take(k as int));
            lemma_package_bytes_prefix(package_files@, k as int + 1);
        }
        let p = &package_files[k];
        let c = package_file_change(
            archive.as_str(),
            p.source.as_str(),
            game_directory.as_str(),
            p.destination.as_str(),
            p.size,
            archive_sha256.as_str(),
        );
        let ghost before = changes@;
        changes.push(c);
        package_total = package_total + p.size;
        proof {
            assert(changes@.take(start.len() as int) =~= before.take(start.len() as int));
            assert forall|j: int| 0 <= j < k + 1 implies is_package_change(
                #[trigger] changes@[start.len() + j],
                package_files@[j],
                archive@,
                game_directory@,
                archive_sha256@,
            ) by {
                if j < k {
                    assert(changes@[start.len() + j] == before[start.len() + j]);
                }
            }
        }
        k = k + 1;
    }
    proof {
        assert(package_files@.take(package_files@.len() as int) =~= package_files@);
        let nc = campaign_files@.len();
        let nd = dependency_files@.len();
        assert forall|i: int| 0 <= i < np implies is_previous_change(#[trigger] changes@[i], prev[i]) by {
            assert(changes@.take(start.len() as int)[i] == changes@[i]);
            assert(after_dependencies.take(after_campaign.len() as int)[i] == after_dependencies[i]);
            assert(after_campaign.take(np as int)[i] == after_campaign[i]);
            assert(after_campaign.take(np as int) == after_previous);
        }
        assert forall|i: int| 0 <= i < nc implies is_snapshot_change(
            #[trigger] changes@[np + i],
            campaign_files@[i],
            backup_root@,
        ) by {
            assert(changes@.take(start.len() as int)[np + i] == changes@[np + i]);
            assert(after_dependencies.take(after_campaign.len() as int)[np + i] == after_dependencies[np + i]);
        }
        assert forall|i: int| 0 <= i < nd implies is_snapshot_change(
            #[trigger] changes@[np + nc + i],
            dependency_files@[i],
            backup_root@,
        ) by {
            assert(changes@.take(start.len() as int)[np + nc + i] == changes@[np + nc + i]);
        }
    }
    let totals = profile_totals(&profile.files);
    let has_dependency_roots = dependency_roots.len() > 0;
    let ProfilePlan { profile_path, profile_store_path, files, progress_keys, bank_plans, warnings } = profile;
    let package_count = package_files.len();
    let warnings = dry_run_warnings(previous_count, has_manifest, warnings, has_dependency_roots, archive_files, package_count);
    let campaign_count = campaign_files.len();
    let dependency_count = dependency_files.len();
    DryRunPlan {
        operation_id,
        campaign_id,
        title,
        game_directory,
        target_path,
        archive_size,
        archive_sha256,
        update_kind: update_kind(previous.is_some()),
        previous_install_manifest: previous_manifest,
        previous_install_campaign_id: previous_id,
        previous_install_version: previous_version_text,
        previous_install_sha256: previous_sha,
        previous_install_files,
        package_files: package_files.len(),
        package_bytes: package_total,
        campaign_files_to_clear: campaign_count,
        campaign_bytes_to_clear: campaign_bytes,
        dependency_roots,
        dependency_files_to_replace: dependency_count,
        files_to_backup: campaign_count + dependency_count,
        profile_path,
        profile_store_path,
        profile_files_to_snapshot: totals.files_to_snapshot,
        profile_bytes_to_snapshot: totals.bytes_to_snapshot,
        profile_files_to_restore: totals.files_to_restore,
        profile_bytes_to_restore: totals.bytes_to_restore,
        progress_updates: totals.progress_updates,
        progress_files: files,
        progress_keys,
        bank_plans,
        file_changes: changes,
        warnings,
    }
}

} // verus!
