//! The profile part of an install's dry run, from what was found on disk:
//! which banks, progress node and saves of the account profile would be
//! snapshotted into the leaving campaign's store, which ones the target
//! campaign's store would bring back, how the progress flags change, and
//! what the player is warned about.

use vstd::prelude::*;
use crate::campaign_profile::{
    campaign_progress_key_changes, campaign_progress_key_changes_between, change_views, count_containing,
    current_progress_line, details_summary, find_current_progress_line, find_stored_progress_line,
    progress_line_readable, relative_profile_path, relative_under, reset_change, restore_change,
    save_details_match_campaign, save_details_match_dependencies, save_details_summary, stored_progress_line,
    campaign_profile_spec, describes_slot, slot_progress_ids, CampaignProfileSpec, ProgressKeyChange, SaveDetails,
};
use crate::install_plan::{bank_plan, progress_file_plan, BankPlan, ProgressFilePlan};
use crate::discovery::{looks_like_starcraft, GameRootMarkers};
use crate::paths::{is_campaign_target, join_path, join_path_exec};
use crate::profile_switch::{
    classify_profile_save, finish_profile_plan, inspected_save_belongs, opt_text, other_profiles_warning,
    ownership_warning, save_class, closing_warnings, skip_warning, untouched_profile_plan, ProfilePlan, ProfileSkip,
    SaveClass,
};
use crate::order::{is_sorted, stable_sort_of};
use crate::resume::{is_save_file, is_save_file_exec};
use crate::cli::debug_text;
use crate::text::{chars_of, concat_chars, decimal, owned, string_from_chars, views};

verus! {

// ----------------------------------------------------------------------
// What the planner is given
// ----------------------------------------------------------------------

/// A file the planner found: its path, size and SHA-256.
#[derive(Debug, Clone, PartialEq, Eq)]
pub struct FoundProfileFile {
    pub path: String,
    pub size: u64,
    pub sha256: String,
}

/// A bank file and its text.
#[derive(Debug, Clone, PartialEq, Eq)]
pub struct FoundBank {
    pub file: FoundProfileFile,
    pub text: String,
}

/// A `CampaignProgress.xml` and its text.
#[derive(Debug, Clone, PartialEq, Eq)]
pub struct FoundProgress {
    pub file: FoundProfileFile,
    pub text: String,
}

/// A file under the profile's `Saves`, with what its `save.details` gave
/// when the planner read it (it reads the saves `classify_profile_save`
/// sends for inspection).
#[derive(Debug, Clone, PartialEq, Eq)]
pub struct FoundSave {
    pub file: FoundProfileFile,
    pub details: Option<Result<SaveDetails, String>>,
}

/// Everything the profile planner reads: the live profile and the two
/// campaign stores, the slot's bank files that exist in each (in the slot's
/// bank order), each side's progress file when it is a file, every file
/// under the live `Saves`, and every file under the target store's `Saves`.
#[derive(Debug, Clone, PartialEq, Eq)]
pub struct ProfileFacts {
    pub profile: String,
    pub source_store: String,
    pub target_store: String,
    pub banks: Vec<FoundBank>,
    pub progress: Option<FoundProgress>,
    pub saves: Vec<FoundSave>,
    pub target_banks: Vec<FoundBank>,
    pub target_progress: Option<FoundProgress>,
    pub target_saves: Vec<FoundProfileFile>,
}

// ----------------------------------------------------------------------
// What the planner produces, as a specification
// ----------------------------------------------------------------------

/// A profile file the plan lists: found at `path` under `root`, to be copied
/// to the same relative path under `destination`.
pub struct PlannedFile {
    pub root: Seq<char>,
    pub path: Seq<char>,
    pub kind: Seq<char>,
    pub action: Seq<char>,
    pub detail: Option<Seq<char>>,
    pub destination: Seq<char>,
    pub size: u64,
    pub sha256: Seq<char>,
}

pub open spec fn planned_file(
    root: Seq<char>,
    f: FoundProfileFile,
    kind: Seq<char>,
    action: Seq<char>,
    detail: Option<Seq<char>>,
    destination: Seq<char>,
) -> PlannedFile {
    PlannedFile { root, path: f.path@, kind, action, detail, destination, size: f.size, sha256: f.sha256@ }
}

/// `p` is the plan entry `d` describes.
pub open spec fn plans(p: ProgressFilePlan, d: PlannedFile) -> bool {
    &&& relative_under(d.root, d.path) == Some(p.relative_path@)
    &&& p.source@ == d.path
    &&& p.destination@ == join_path(d.destination, p.relative_path@)
    &&& p.kind@ == d.kind
    &&& p.action@ == d.action
    &&& p.size == d.size
    &&& p.sha256@ == d.sha256
    &&& opt_text(p.detail) == d.detail
}

pub open spec fn plans_all(ps: Seq<ProgressFilePlan>, ds: Seq<PlannedFile>) -> bool {
    &&& ps.len() == ds.len()
    &&& forall|i: int| 0 <= i < ps.len() ==> plans(#[trigger] ps[i], ds[i])
}

/// `bp` is the bank plan of bank `b` under `root`, moved to `destination`.
pub open spec fn plans_bank(bp: BankPlan, root: Seq<char>, b: FoundBank, destination: Seq<char>, note: Seq<char>) -> bool {
    &&& relative_under(root, b.file.path@) == Some(bp.relative_path@)
    &&& bp.source@ == b.file.path@
    &&& bp.destination@ == join_path(destination, bp.relative_path@)
    &&& bp.sections == count_containing(crate::text::lines(b.text@), "<Section name="@)
    &&& bp.keys == count_containing(crate::text::lines(b.text@), "<Key name="@)
    &&& bp.keys_changed_in_place == 0
    &&& bp.note@ == note
}

pub open spec fn live_note() -> Seq<char> {
    "The bank is snapshotted and swapped as a whole; no existing bank key is mutated in place."@
}

pub open spec fn target_note() -> Seq<char> {
    "The saved target-campaign bank is restored as a whole; no bank key is edited in place."@
}

pub open spec fn slot_named_detail() -> Seq<char> {
    "slot-named campaign state; moved even when save.details is unavailable"@
}

pub open spec fn bank_files(
    banks: Seq<FoundBank>,
    root: Seq<char>,
    destination: Seq<char>,
    action: Seq<char>,
    detail: Seq<char>,
) -> Seq<PlannedFile> {
    banks.map_values(|b: FoundBank| planned_file(root, b.file, "bank"@, action, Some(detail), destination))
}

/// The slot's node in the live progress file, if the file and the node exist.
pub open spec fn live_line(facts: ProfileFacts, ids: Seq<Seq<char>>) -> Option<Seq<char>> {
    match facts.progress {
        Some(p) => current_progress_line(p.text@, ids),
        None => None,
    }
}

/// The slot's node in the target store's progress file, if any.
pub open spec fn target_line(facts: ProfileFacts, ids: Seq<Seq<char>>) -> Option<Seq<char>> {
    match facts.target_progress {
        Some(p) => stored_progress_line(p.text@, ids),
        None => None,
    }
}

pub open spec fn live_progress_files(facts: ProfileFacts, ids: Seq<Seq<char>>) -> Seq<PlannedFile> {
    match facts.progress {
        Some(p) => match current_progress_line(p.text@, ids) {
            Some(line) => seq![
                planned_file(
                    facts.profile@,
                    p.file,
                    "campaign-progress"@,
                    "snapshot-and-reset-target-node"@,
                    Some("current node: "@ + line),
                    facts.source_store@,
                ),
            ],
            None => Seq::empty(),
        },
        None => Seq::empty(),
    }
}

pub open spec fn target_progress_files(facts: ProfileFacts, ids: Seq<Seq<char>>) -> Seq<PlannedFile> {
    match facts.target_progress {
        Some(p) => match stored_progress_line(p.text@, ids) {
            Some(line) => seq![
                planned_file(
                    facts.target_store@,
                    p.file,
                    "campaign-progress"@,
                    "restore-target-campaign-progress-node"@,
                    Some("restore target node: "@ + line),
                    facts.profile@,
                ),
            ],
            None => Seq::empty(),
        },
        None => Seq::empty(),
    }
}

/// What the planner makes of one live save: the entry it lists, and the
/// warning when its details could not be read.
pub open spec fn save_entry(
    profile: Seq<char>,
    store: Seq<char>,
    s: FoundSave,
    marker: Seq<char>,
    names: Seq<Seq<char>>,
) -> (Option<PlannedFile>, Option<Seq<char>>) {
    if !is_save_file(s.file.path@) {
        (None, None)
    } else {
        match relative_under(profile, s.file.path@) {
            None => (None, None),
            Some(rel) => match save_class(rel, marker) {
                SaveClass::Skip => (None, None),
                SaveClass::SlotNamed => (
                    Some(
                        planned_file(
                            profile,
                            s.file,
                            "campaign-save"@,
                            "snapshot-and-move-to-mod-profile"@,
                            Some(slot_named_detail()),
                            store,
                        ),
                    ),
                    None,
                ),
                SaveClass::Inspect => match s.details {
                    Some(Ok(d)) => if inspected_save_belongs(d, marker, names) {
                        (
                            Some(
                                planned_file(
                                    profile,
                                    s.file,
                                    "campaign-save"@,
                                    "snapshot-and-move-to-mod-profile"@,
                                    details_summary(d.view().0, d.view().1, d.view().2),
                                    store,
                                ),
                            ),
                            None,
                        )
                    } else {
                        (None, None)
                    },
                    Some(Err(e)) => (None, Some("Could not inspect "@ + rel + ": "@ + e@ + "; it will be left untouched."@)),
                    None => (None, None),
                },
            },
        }
    }
}

pub open spec fn opt_seq<A>(o: Option<A>) -> Seq<A> {
    match o {
        Some(a) => seq![a],
        None => Seq::empty(),
    }
}

pub open spec fn save_files(
    profile: Seq<char>,
    store: Seq<char>,
    saves: Seq<FoundSave>,
    marker: Seq<char>,
    names: Seq<Seq<char>>,
) -> Seq<PlannedFile>
    decreases saves.len(),
{
    if saves.len() == 0 {
        Seq::empty()
    } else {
        save_files(profile, store, saves.drop_last(), marker, names) + opt_seq(
            save_entry(profile, store, saves.last(), marker, names).0,
        )
    }
}

pub open spec fn save_warnings(
    profile: Seq<char>,
    store: Seq<char>,
    saves: Seq<FoundSave>,
    marker: Seq<char>,
    names: Seq<Seq<char>>,
) -> Seq<Seq<char>>
    decreases saves.len(),
{
    if saves.len() == 0 {
        Seq::empty()
    } else {
        save_warnings(profile, store, saves.drop_last(), marker, names) + opt_seq(
            save_entry(profile, store, saves.last(), marker, names).1,
        )
    }
}

pub open spec fn stored_save_file(store: Seq<char>, profile: Seq<char>, f: FoundProfileFile) -> Option<PlannedFile> {
    if is_save_file(f.path@) {
        Some(
            planned_file(
                store,
                f,
                "campaign-save"@,
                "restore-target-mod-profile-save"@,
                Some("restore exact save previously stored for this campaign"@),
                profile,
            ),
        )
    } else {
        None
    }
}

pub open spec fn stored_save_files(store: Seq<char>, profile: Seq<char>, saves: Seq<FoundProfileFile>) -> Seq<PlannedFile>
    decreases saves.len(),
{
    if saves.len() == 0 {
        Seq::empty()
    } else {
        stored_save_files(store, profile, saves.drop_last()) + opt_seq(stored_save_file(store, profile, saves.last()))
    }
}

/// Every profile file the dry run lists, in the order it finds them.
pub open spec fn profile_files(facts: ProfileFacts, spec: CampaignProfileSpec, names: Seq<Seq<char>>) -> Seq<PlannedFile> {
    let marker = spec.save_marker@;
    bank_files(
        facts.banks@,
        facts.profile@,
        facts.source_store@,
        "snapshot-current-and-reset-for-mod"@,
        marker + " campaign bank"@,
    ) + live_progress_files(facts, spec.ids_view()) + save_files(
        facts.profile@,
        facts.source_store@,
        facts.saves@,
        marker,
        names,
    ) + bank_files(
        facts.target_banks@,
        facts.target_store@,
        facts.profile@,
        "restore-target-mod-profile-bank"@,
        "restore saved "@ + marker + " campaign bank"@,
    ) + target_progress_files(facts, spec.ids_view()) + stored_save_files(
        facts.target_store@,
        facts.profile@,
        facts.target_saves@,
    )
}

/// The progress flags the switch changes: reset for a clean profile, or
/// taken from the target store's node when it has one.
pub open spec fn planned_keys(facts: ProfileFacts, ids: Seq<Seq<char>>) -> Seq<(Seq<char>, Seq<char>, Seq<char>, Seq<char>)> {
    match live_line(facts, ids) {
        None => Seq::empty(),
        Some(c) => match target_line(facts, ids) {
            Some(t) => restore_change(c, t, "tutorialfinished"@) + restore_change(c, t, "campaignfinished"@),
            None => reset_change(c, "tutorialfinished"@) + reset_change(c, "campaignfinished"@),
        },
    }
}

/// The planner's warning about the live progress file.
pub open spec fn progress_warnings(facts: ProfileFacts, spec: CampaignProfileSpec) -> Seq<Seq<char>> {
    match facts.progress {
        Some(p) => if current_progress_line(p.text@, spec.ids_view()) is None {
            seq!["CampaignProgress.xml has no "@ + spec.save_marker@ + " node; it will not be rewritten automatically."@]
        } else {
            Seq::empty()
        },
        None => seq!["CampaignProgress.xml was not found; only discovered bank/save files can be profiled."@],
    }
}

/// Some file the plan needs to place lies outside the directory it was
/// found in.
pub open spec fn facts_escape(facts: ProfileFacts, ids: Seq<Seq<char>>) -> bool {
    ||| exists|i: int| 0 <= i < facts.banks@.len() && relative_under(facts.profile@, #[trigger] facts.banks@[i].file.path@) is None
    ||| (live_line(facts, ids) is Some && relative_under(facts.profile@, facts.progress->Some_0.file.path@) is None)
    ||| exists|i: int|
        0 <= i < facts.saves@.len() && is_save_file(#[trigger] facts.saves@[i].file.path@) && relative_under(
            facts.profile@,
            facts.saves@[i].file.path@,
        ) is None
    ||| exists|i: int|
        0 <= i < facts.target_banks@.len() && relative_under(facts.target_store@, #[trigger] facts.target_banks@[i].file.path@)
            is None
    ||| (target_line(facts, ids) is Some && relative_under(facts.target_store@, facts.target_progress->Some_0.file.path@)
        is None)
    ||| exists|i: int|
        0 <= i < facts.target_saves@.len() && is_save_file(#[trigger] facts.target_saves@[i].path@) && relative_under(
            facts.target_store@,
            facts.target_saves@[i].path@,
        ) is None
}

/// The progress lines the planner reads its flags from can be read (the
/// value after each flag's quote is a single byte).
pub open spec fn readable_lines(facts: ProfileFacts, ids: Seq<Seq<char>>) -> bool {
    match live_line(facts, ids) {
        None => true,
        Some(c) => progress_line_readable(c) && match target_line(facts, ids) {
            Some(t) => progress_line_readable(t),
            None => true,
        },
    }
}

pub open spec fn escape_error() -> Seq<char> {
    "Profile path escaped its root."@
}

// ----------------------------------------------------------------------
// The planner
// ----------------------------------------------------------------------

/// The files, flags, bank plans and warnings the profile planner found.
#[derive(Debug, Clone, PartialEq, Eq)]
pub struct ProfileFiles {
    pub files: Vec<ProgressFilePlan>,
    pub progress_keys: Vec<ProgressKeyChange>,
    pub bank_plans: Vec<BankPlan>,
    pub warnings: Vec<String>,
}

proof fn lemma_plans_push(ps: Seq<ProgressFilePlan>, ds: Seq<PlannedFile>, p: ProgressFilePlan, d: PlannedFile)
    requires
        plans_all(ps, ds),
        plans(p, d),
    ensures
        plans_all(ps.push(p), ds.push(d)),
{
    assert forall|i: int| 0 <= i < ps.push(p).len() implies plans(#[trigger] ps.push(p)[i], ds.push(d)[i]) by {
        if i < ps.len() {
            assert(ps.push(p)[i] == ps[i]);
            assert(ds.push(d)[i] == ds[i]);
        }
    }
}

/// Adds the plan entry of `file`, found under `root`; `false` when it lies
/// outside `root`.
fn push_found(
    files: &mut Vec<ProgressFilePlan>,
    root: &str,
    file: &FoundProfileFile,
    kind: &str,
    action: &str,
    detail: Option<String>,
    destination: &str,
) -> (r: bool)
    ensures
        r == (relative_under(root@, file.path@) is Some),
        r ==> final(files)@ == old(files)@.push(final(files)@.last()) && plans(
            final(files)@.last(),
            planned_file(root@, *file, kind@, action@, opt_text(detail), destination@),
        ),
        !r ==> final(files)@ == old(files)@,
{
    match progress_file_plan(root, file.path.as_str(), kind, action, detail, destination, file.size, file.sha256.clone()) {
        Ok(p) => {
            files.push(p);
            true
        },
        Err(_) => false,
    }
}

/// The bank plan of `b` under `root`, moved to `destination`; `None` when
/// it lies outside `root`.
fn plan_one_bank(root: &str, b: &FoundBank, destination: &str, note: &str) -> (r: Option<BankPlan>)
    ensures
        r is Some <==> relative_under(root@, b.file.path@) is Some,
        r matches Some(bp) ==> plans_bank(bp, root@, *b, destination@, note@),
{
    match relative_profile_path(root, b.file.path.as_str()) {
        Some(relative) => {
            let to = join_path_exec(&chars_of(destination), &chars_of(relative.as_str()));
            let shape = crate::campaign_profile::bank_shape(b.text.as_str());
            Some(bank_plan(relative.as_str(), b.file.path.as_str(), &string_from_chars(&to), shape, note))
        },
        None => None,
    }
}

/// The banks of one side: each bank's plan and its file entry.
fn plan_banks(
    files: &mut Vec<ProgressFilePlan>,
    bank_plans: &mut Vec<BankPlan>,
    banks: &Vec<FoundBank>,
    root: &str,
    destination: &str,
    action: &str,
    detail: &str,
    note: &str,
    Ghost(planned): Ghost<Seq<PlannedFile>>,
) -> (r: bool)
    requires
        plans_all(old(files)@, planned),
    ensures
        r <==> forall|i: int| 0 <= i < banks@.len() ==> relative_under(root@, #[trigger] banks@[i].file.path@) is Some,
        r ==> plans_all(final(files)@, planned + bank_files(banks@, root@, destination@, action@, detail@)),
        r ==> final(bank_plans)@.len() == old(bank_plans)@.len() + banks@.len(),
        r ==> final(bank_plans)@.take(old(bank_plans)@.len() as int) == old(bank_plans)@,
        r ==> forall|i: int|
            0 <= i < banks@.len() ==> plans_bank(
                #[trigger] final(bank_plans)@[old(bank_plans)@.len() + i],
                root@,
                banks@[i],
                destination@,
                note@,
            ),
{
    let ghost start_plans = bank_plans@;
    let ghost all = bank_files(banks@, root@, destination@, action@, detail@);
    let mut i: usize = 0;
    while i < banks.len()
        invariant
            i <= banks@.len(),
            all == bank_files(banks@, root@, destination@, action@, detail@),
            plans_all(files@, planned + all.take(i as int)),
            bank_plans@.len() == start_plans.len() + i,
            bank_plans@.take(start_plans.len() as int) == start_plans,
            forall|j: int| 0 <= j < i ==> relative_under(root@, #[trigger] banks@[j].file.path@) is Some,
            forall|j: int|
                0 <= j < i ==> plans_bank(#[trigger] bank_plans@[start_plans.len() + j], root@, banks@[j], destination@, note@),
        decreases banks.len() - i,
    {
        let b = &banks[i];
        let bp = match plan_one_bank(root, b, destination, note) {
            Some(bp) => bp,
            None => {
                return false;
            },
        };
        let ghost before_plans = bank_plans@;
        bank_plans.push(bp);
        let ghost before = files@;
        let pushed = push_found(files, root, &b.file, "bank", action, Some(owned(detail)), destination);
        proof {
            assert(pushed);
            assert(all[i as int] == planned_file(root@, b.file, "bank"@, action@, Some(detail@), destination@));
            lemma_plans_push(before, planned + all.take(i as int), files@.last(), all[i as int]);
            assert(planned + all.take(i as int + 1) =~= (planned + all.take(i as int)).push(all[i as int]));
            assert(bank_plans@.take(start_plans.len() as int) =~= before_plans.take(start_plans.len() as int));
            assert forall|j: int| 0 <= j < i + 1 implies plans_bank(
                #[trigger] bank_plans@[start_plans.len() + j],
                root@,
                banks@[j],
                destination@,
                note@,
            ) by {
                if j < i {
                    assert(bank_plans@[start_plans.len() + j] == before_plans[start_plans.len() + j]);
                }
            }
        }
        i = i + 1;
    }
    proof {
        assert(all.take(banks@.len() as int) =~= all);
    }
    true
}


proof fn lemma_save_files_step(
    profile: Seq<char>,
    store: Seq<char>,
    saves: Seq<FoundSave>,
    marker: Seq<char>,
    names: Seq<Seq<char>>,
    i: int,
)
    requires
        0 <= i < saves.len(),
    ensures
        save_files(profile, store, saves.take(i + 1), marker, names) == save_files(profile, store, saves.take(i), marker, names)
            + opt_seq(save_entry(profile, store, saves[i], marker, names).0),
        save_warnings(profile, store, saves.take(i + 1), marker, names) == save_warnings(
            profile,
            store,
            saves.take(i),
            marker,
            names,
        ) + opt_seq(save_entry(profile, store, saves[i], marker, names).1),
{
    assert(saves.take(i + 1).drop_last() =~= saves.take(i));
    assert(saves.take(i + 1).last() == saves[i]);
}

proof fn lemma_stored_save_files_step(store: Seq<char>, profile: Seq<char>, saves: Seq<FoundProfileFile>, i: int)
    requires
        0 <= i < saves.len(),
    ensures
        stored_save_files(store, profile, saves.take(i + 1)) == stored_save_files(store, profile, saves.take(i)) + opt_seq(
            stored_save_file(store, profile, saves[i]),
        ),
{
    assert(saves.take(i + 1).drop_last() =~= saves.take(i));
    assert(saves.take(i + 1).last() == saves[i]);
}

fn push_text(v: &mut Vec<String>, s: String)
    ensures
        views(final(v)@) == views(old(v)@).push(s@),
{
    let ghost before = v@;
    v.push(s);
    proof {
        assert(views(v@) =~= views(before).push(s@));
    }
}

/// The live saves: the slot's saves get their entries, and a save whose
/// details could not be read gets a warning; `false` when a save lies
/// outside the profile.
fn plan_saves(
    files: &mut Vec<ProgressFilePlan>,
    warnings: &mut Vec<String>,
    saves: &Vec<FoundSave>,
    profile: &str,
    store: &str,
    spec: &CampaignProfileSpec,
    names: &[String],
    Ghost(planned): Ghost<Seq<PlannedFile>>,
    Ghost(warned): Ghost<Seq<Seq<char>>>,
) -> (r: bool)
    requires
        plans_all(old(files)@, planned),
        views(old(warnings)@) == warned,
    ensures
        r <==> forall|i: int|
            0 <= i < saves@.len() && is_save_file(#[trigger] saves@[i].file.path@) ==> relative_under(
                profile@,
                saves@[i].file.path@,
            ) is Some,
        r ==> plans_all(final(files)@, planned + save_files(profile@, store@, saves@, spec.save_marker@, views(names@))),
        r ==> views(final(warnings)@) == warned + save_warnings(profile@, store@, saves@, spec.save_marker@, views(names@)),
{
    let ghost marker = spec.save_marker@;
    let ghost nv = views(names@);
    let mut i: usize = 0;
    while i < saves.len()
        invariant
            i <= saves@.len(),
            marker == spec.save_marker@,
            nv == views(names@),
            plans_all(files@, planned + save_files(profile@, store@, saves@.take(i as int), marker, nv)),
            views(warnings@) == warned + save_warnings(profile@, store@, saves@.take(i as int), marker, nv),
            forall|j: int|
                0 <= j < i && is_save_file(#[trigger] saves@[j].file.path@) ==> relative_under(profile@, saves@[j].file.path@)
                    is Some,
        decreases saves.len() - i,
    {
        let s = &saves[i];
        let ghost entry = save_entry(profile@, store@, saves@[i as int], marker, nv);
        let ghost before = files@;
        let ghost before_w = views(warnings@);
        proof {
            lemma_save_files_step(profile@, store@, saves@, marker, nv, i as int);
        }
        if is_save_file_exec(s.file.path.as_str()) {
            let rel = match relative_profile_path(profile, s.file.path.as_str()) {
                Some(rel) => rel,
                None => {
                    return false;
                },
            };
            match classify_profile_save(rel.as_str(), spec) {
                SaveClass::Skip => {
                    proof {
                        assert(entry == (None::<PlannedFile>, None::<Seq<char>>));
                        assert(save_files(profile@, store@, saves@.take(i as int), marker, nv) + opt_seq(entry.0)
                            =~= save_files(profile@, store@, saves@.take(i as int), marker, nv));
                        assert(save_warnings(profile@, store@, saves@.take(i as int), marker, nv) + opt_seq(entry.1)
                            =~= save_warnings(profile@, store@, saves@.take(i as int), marker, nv));
                    }
                },
                SaveClass::SlotNamed => {
                    let pushed = push_found(
                        files,
                        profile,
                        &s.file,
                        "campaign-save",
                        "snapshot-and-move-to-mod-profile",
                        Some(owned("slot-named campaign state; moved even when save.details is unavailable")),
                        store,
                    );
                    proof {
                        assert(pushed);
                        let d = planned_file(
                            profile@,
                            s.file,
                            "campaign-save"@,
                            "snapshot-and-move-to-mod-profile"@,
                            Some(slot_named_detail()),
                            store@,
                        );
                        assert(entry == (Some(d), None::<Seq<char>>));
                        lemma_plans_push(before, planned + save_files(profile@, store@, saves@.take(i as int), marker, nv), files@.last(), d);
                        assert(planned + save_files(profile@, store@, saves@.take(i as int + 1), marker, nv) =~= (planned
                            + save_files(profile@, store@, saves@.take(i as int), marker, nv)).push(d));
                        assert(save_warnings(profile@, store@, saves@.take(i as int), marker, nv) + opt_seq(entry.1)
                            =~= save_warnings(profile@, store@, saves@.take(i as int), marker, nv));
                    }
                },
                SaveClass::Inspect => {
                    match &s.details {
                        Some(Ok(d)) => {
                            if save_details_match_campaign(d, spec) && save_details_match_dependencies(d, names) {
                                let pushed = push_found(
                                    files,
                                    profile,
                                    &s.file,
                                    "campaign-save",
                                    "snapshot-and-move-to-mod-profile",
                                    save_details_summary(d),
                                    store,
                                );
                                proof {
                                    assert(pushed);
                                    let pd = planned_file(
                                        profile@,
                                        s.file,
                                        "campaign-save"@,
                                        "snapshot-and-move-to-mod-profile"@,
                                        details_summary(d.view().0, d.view().1, d.view().2),
                                        store@,
                                    );
                                    assert(entry == (Some(pd), None::<Seq<char>>));
                                    lemma_plans_push(
                                        before,
                                        planned + save_files(profile@, store@, saves@.take(i as int), marker, nv),
                                        files@.last(),
                                        pd,
                                    );
                                    assert(planned + save_files(profile@, store@, saves@.take(i as int + 1), marker, nv)
                                        =~= (planned + save_files(profile@, store@, saves@.take(i as int), marker, nv)).push(pd));
                                    assert(save_warnings(profile@, store@, saves@.take(i as int), marker, nv) + opt_seq(entry.1)
                                        =~= save_warnings(profile@, store@, saves@.take(i as int), marker, nv));
                                }
                            } else {
                                proof {
                                    assert(entry == (None::<PlannedFile>, None::<Seq<char>>));
                                    assert(save_files(profile@, store@, saves@.take(i as int), marker, nv) + opt_seq(entry.0)
                                        =~= save_files(profile@, store@, saves@.take(i as int), marker, nv));
                                    assert(save_warnings(profile@, store@, saves@.take(i as int), marker, nv) + opt_seq(entry.1)
                                        =~= save_warnings(profile@, store@, saves@.take(i as int), marker, nv));
                                }
                            }
                        },
                        Some(Err(e)) => {
                            let m = concat_chars(&chars_of("Could not inspect "), &chars_of(rel.as_str()));
                            let m = concat_chars(&concat_chars(&m, &chars_of(": ")), &chars_of(e.as_str()));
                            let m = concat_chars(&m, &chars_of("; it will be left untouched."));
                            push_text(warnings, string_from_chars(&m));
                            proof {
                                assert(entry == (None::<PlannedFile>, Some(m@)));
                                assert(save_files(profile@, store@, saves@.take(i as int), marker, nv) + opt_seq(entry.0)
                                    =~= save_files(profile@, store@, saves@.take(i as int), marker, nv));
                                assert(warned + save_warnings(profile@, store@, saves@.take(i as int + 1), marker, nv)
                                    =~= before_w.push(m@));
                            }
                        },
                        None => {
                            proof {
                                assert(entry == (None::<PlannedFile>, None::<Seq<char>>));
                                assert(save_files(profile@, store@, saves@.take(i as int), marker, nv) + opt_seq(entry.0)
                                    =~= save_files(profile@, store@, saves@.take(i as int), marker, nv));
                                assert(save_warnings(profile@, store@, saves@.take(i as int), marker, nv) + opt_seq(entry.1)
                                    =~= save_warnings(profile@, store@, saves@.take(i as int), marker, nv));
                            }
                        },
                    }
                },
            }
        } else {
            proof {
                assert(entry == (None::<PlannedFile>, None::<Seq<char>>));
                assert(save_files(profile@, store@, saves@.take(i as int), marker, nv) + opt_seq(entry.0)
                    =~= save_files(profile@, store@, saves@.take(i as int), marker, nv));
                assert(save_warnings(profile@, store@, saves@.take(i as int), marker, nv) + opt_seq(entry.1)
                    =~= save_warnings(profile@, store@, saves@.take(i as int), marker, nv));
            }
        }
        i = i + 1;
    }
    proof {
        assert(saves@.take(saves@.len() as int) =~= saves@);
    }
    true
}


/// The target store's saves, each brought back to the same place in the
/// profile; `false` when a save lies outside the store.
fn plan_stored_saves(
    files: &mut Vec<ProgressFilePlan>,
    saves: &Vec<FoundProfileFile>,
    store: &str,
    profile: &str,
    Ghost(planned): Ghost<Seq<PlannedFile>>,
) -> (r: bool)
    requires
        plans_all(old(files)@, planned),
    ensures
        r <==> forall|i: int|
            0 <= i < saves@.len() && is_save_file(#[trigger] saves@[i].path@) ==> relative_under(store@, saves@[i].path@) is Some,
        r ==> plans_all(final(files)@, planned + stored_save_files(store@, profile@, saves@)),
{
    let mut i: usize = 0;
    while i < saves.len()
        invariant
            i <= saves@.len(),
            plans_all(files@, planned + stored_save_files(store@, profile@, saves@.take(i as int))),
            forall|j: int|
                0 <= j < i && is_save_file(#[trigger] saves@[j].path@) ==> relative_under(store@, saves@[j].path@) is Some,
        decreases saves.len() - i,
    {
        let ghost before = files@;
        let ghost prefix = planned + stored_save_files(store@, profile@, saves@.take(i as int));
        proof {
            lemma_stored_save_files_step(store@, profile@, saves@, i as int);
        }
        if is_save_file_exec(saves[i].path.as_str()) {
            let pushed = push_found(
                files,
                store,
                &saves[i],
                "campaign-save",
                "restore-target-mod-profile-save",
                Some(owned("restore exact save previously stored for this campaign")),
                profile,
            );
            if !pushed {
                return false;
            }
            proof {
                let d = stored_save_file(store@, profile@, saves@[i as int])->Some_0;
                lemma_plans_push(before, prefix, files@.last(), d);
                assert(planned + stored_save_files(store@, profile@, saves@.take(i as int + 1)) =~= prefix.push(d));
            }
        } else {
            proof {
                assert(planned + stored_save_files(store@, profile@, saves@.take(i as int + 1)) =~= prefix);
            }
        }
        i = i + 1;
    }
    proof {
        assert(saves@.take(saves@.len() as int) =~= saves@);
    }
    true
}

/// `plan_profile_transition` once the profile was read: each bank, the
/// progress node and each save of the slot that a switch snapshots into
/// the leaving campaign's store, then what the target campaign's store
/// brings back; the progress flags that change; a plan for each bank; and
/// the warnings about the progress file and unreadable saves. A file the
/// plan must place that lies outside the directory it was found in is an
/// error.
pub fn plan_profile_files(facts: &ProfileFacts, spec: &CampaignProfileSpec, names: &[String]) -> (r: Result<
    ProfileFiles,
    String,
>)
    requires
        readable_lines(*facts, spec.ids_view()),
    ensures
        r is Err <==> facts_escape(*facts, spec.ids_view()),
        r matches Err(e) ==> e@ == escape_error(),
        r matches Ok(p) ==> {
            &&& plans_all(p.files@, profile_files(*facts, *spec, views(names@)))
            &&& change_views(p.progress_keys@) == planned_keys(*facts, spec.ids_view())
            &&& p.bank_plans@.len() == facts.banks@.len() + facts.target_banks@.len()
            &&& forall|i: int|
                0 <= i < facts.banks@.len() ==> plans_bank(
                    #[trigger] p.bank_plans@[i],
                    facts.profile@,
                    facts.banks@[i],
                    facts.source_store@,
                    live_note(),
                )
            &&& forall|i: int|
                0 <= i < facts.target_banks@.len() ==> plans_bank(
                    #[trigger] p.bank_plans@[facts.banks@.len() + i],
                    facts.target_store@,
                    facts.target_banks@[i],
                    facts.profile@,
                    target_note(),
                )
            &&& views(p.warnings@) == progress_warnings(*facts, *spec) + save_warnings(
                facts.profile@,
                facts.source_store@,
                facts.saves@,
                spec.save_marker@,
                views(names@),
            )
        },
{
    let ghost ids = spec.ids_view();
    let ghost marker = spec.save_marker@;
    let ghost nv = views(names@);
    let profile = facts.profile.as_str();
    let source_store = facts.source_store.as_str();
    let target_store = facts.target_store.as_str();
    let mut files: Vec<ProgressFilePlan> = Vec::new();
    let mut bank_plans: Vec<BankPlan> = Vec::new();
    let mut warnings: Vec<String> = Vec::new();
    let mut keys: Vec<ProgressKeyChange> = Vec::new();
    let ghost empty_plans = bank_plans@;

    // The live banks.
    let bank_detail = concat_chars(&chars_of(spec.save_marker.as_str()), &chars_of(" campaign bank"));
    if !plan_banks(
        &mut files,
        &mut bank_plans,
        &facts.banks,
        profile,
        source_store,
        "snapshot-current-and-reset-for-mod",
        string_from_chars(&bank_detail).as_str(),
        "The bank is snapshotted and swapped as a whole; no existing bank key is mutated in place.",
        Ghost(Seq::<PlannedFile>::empty()),
    ) {
        return Err(owned("Profile path escaped its root."));
    }
    let ghost part1 = Seq::<PlannedFile>::empty() + bank_files(
        facts.banks@,
        profile@,
        source_store@,
        "snapshot-current-and-reset-for-mod"@,
        marker + " campaign bank"@,
    );
    let ghost live_bank_plans = bank_plans@;

    // The live progress node.
    let mut current_line: Option<String> = None;
    match &facts.progress {
        Some(p) => match find_current_progress_line(p.text.as_str(), spec) {
            Some(line) => {
                keys = campaign_progress_key_changes(line.as_str());
                let detail = concat_chars(&chars_of("current node: "), &chars_of(line.as_str()));
                let ghost before = files@;
                if !push_found(
                    &mut files,
                    profile,
                    &p.file,
                    "campaign-progress",
                    "snapshot-and-reset-target-node",
                    Some(string_from_chars(&detail)),
                    source_store,
                ) {
                    return Err(owned("Profile path escaped its root."));
                }
                proof {
                    lemma_plans_push(before, part1, files@.last(), live_progress_files(*facts, ids)[0]);
                    assert(part1 + live_progress_files(*facts, ids) =~= part1.push(live_progress_files(*facts, ids)[0]));
                }
                current_line = Some(line);
            },
            None => {
                let m = concat_chars(&chars_of("CampaignProgress.xml has no "), &chars_of(spec.save_marker.as_str()));
                let m = concat_chars(&m, &chars_of(" node; it will not be rewritten automatically."));
                push_text(&mut warnings, string_from_chars(&m));
                proof {
                    assert(part1 + live_progress_files(*facts, ids) =~= part1);
                }
            },
        },
        None => {
            push_text(&mut warnings, owned("CampaignProgress.xml was not found; only discovered bank/save files can be profiled."));
            proof {
                assert(part1 + live_progress_files(*facts, ids) =~= part1);
            }
        },
    }
    let ghost part2 = part1 + live_progress_files(*facts, ids);
    proof {
        assert(views(warnings@) =~= progress_warnings(*facts, *spec));
    }

    // The live saves.
    if !plan_saves(
        &mut files,
        &mut warnings,
        &facts.saves,
        profile,
        source_store,
        spec,
        names,
        Ghost(part2),
        Ghost(progress_warnings(*facts, *spec)),
    ) {
        return Err(owned("Profile path escaped its root."));
    }
    let ghost part3 = part2 + save_files(profile@, source_store@, facts.saves@, marker, nv);

    // The target store's banks.
    let restore_detail = concat_chars(
        &concat_chars(&chars_of("restore saved "), &chars_of(spec.save_marker.as_str())),
        &chars_of(" campaign bank"),
    );
    if !plan_banks(
        &mut files,
        &mut bank_plans,
        &facts.target_banks,
        target_store,
        profile,
        "restore-target-mod-profile-bank",
        string_from_chars(&restore_detail).as_str(),
        "The saved target-campaign bank is restored as a whole; no bank key is edited in place.",
        Ghost(part3),
    ) {
        return Err(owned("Profile path escaped its root."));
    }
    let ghost part4 = part3 + bank_files(
        facts.target_banks@,
        target_store@,
        profile@,
        "restore-target-mod-profile-bank"@,
        "restore saved "@ + marker + " campaign bank"@,
    );

    // The target store's progress node.
    match &facts.target_progress {
        Some(t) => match find_stored_progress_line(t.text.as_str(), spec) {
            Some(target) => {
                match &current_line {
                    Some(current) => {
                        keys = campaign_progress_key_changes_between(current.as_str(), target.as_str());
                    },
                    None => {},
                }
                let detail = concat_chars(&chars_of("restore target node: "), &chars_of(target.as_str()));
                let ghost before = files@;
                if !push_found(
                    &mut files,
                    target_store,
                    &t.file,
                    "campaign-progress",
                    "restore-target-campaign-progress-node",
                    Some(string_from_chars(&detail)),
                    profile,
                ) {
                    return Err(owned("Profile path escaped its root."));
                }
                proof {
                    lemma_plans_push(before, part4, files@.last(), target_progress_files(*facts, ids)[0]);
                    assert(part4 + target_progress_files(*facts, ids) =~= part4.push(target_progress_files(*facts, ids)[0]));
                }
            },
            None => {
                proof {
                    assert(part4 + target_progress_files(*facts, ids) =~= part4);
                }
            },
        },
        None => {
            proof {
                assert(part4 + target_progress_files(*facts, ids) =~= part4);
            }
        },
    }
    let ghost part5 = part4 + target_progress_files(*facts, ids);

    // The target store's saves.
    if !plan_stored_saves(&mut files, &facts.target_saves, target_store, profile, Ghost(part5)) {
        return Err(owned("Profile path escaped its root."));
    }
    proof {
        assert(part5 + stored_save_files(target_store@, profile@, facts.target_saves@) =~= profile_files(*facts, *spec, nv));
        assert forall|i: int| 0 <= i < facts.banks@.len() implies plans_bank(
            #[trigger] bank_plans@[i],
            facts.profile@,
            facts.banks@[i],
            facts.source_store@,
            live_note(),
        ) by {
            assert(bank_plans@.take(live_bank_plans.len() as int)[i] == bank_plans@[i]);
            assert(live_bank_plans[empty_plans.len() + i] == live_bank_plans[i]);
        }
    }
    Ok(ProfileFiles { files, progress_keys: keys, bank_plans, warnings })
}


/// The planner's first warnings: that other account profiles were left
/// alone, and whose saves the snapshots are matched to.
pub open spec fn lead_warnings(
    other_profiles: nat,
    profile_label: Seq<char>,
    has_dependencies: bool,
    current_title: Option<Seq<char>>,
) -> Seq<Seq<char>> {
    (if other_profiles > 0 {
        seq![
            decimal(other_profiles + 1) + " StarCraft II profiles found; selected "@ + profile_label
                + " and will leave the others untouched."@,
        ]
    } else {
        Seq::empty()
    }) + (if has_dependencies && current_title is Some {
        seq![
            "Save ownership is matched to the current managed campaign "@ + debug_text(current_title->Some_0)
                + "; its profile is the destination for these snapshots. Saves from other campaigns remain untouched."@,
        ]
    } else {
        Seq::empty()
    })
}

fn push_opt(v: &mut Vec<String>, o: Option<String>)
    ensures
        views(final(v)@) == views(old(v)@) + opt_seq(opt_text(o)),
{
    let ghost before = views(v@);
    match o {
        Some(s) => {
            push_text(v, s);
            proof {
                assert(views(v@) =~= before + opt_seq(opt_text(Some(s))));
            }
        },
        None => {
            proof {
                assert(before + opt_seq(opt_text(None::<String>)) =~= before);
            }
        },
    }
}

/// What the planner returns for a selected profile of a slot (see
/// `plan_slot_profile`).
pub open spec fn slot_plan_result(
    r: Result<ProfilePlan, String>,
    facts: ProfileFacts,
    spec: CampaignProfileSpec,
    names: Seq<Seq<char>>,
    profile_label: Seq<char>,
    store_label: Seq<char>,
    other_profiles: nat,
    current_title: Option<Seq<char>>,
) -> bool {
    &&& (r is Err <==> facts_escape(facts, spec.ids_view()))
    &&& (r matches Err(e) ==> e@ == escape_error())
    &&& (r matches Ok(plan) ==> {
        &&& opt_text(plan.profile_path) == Some(profile_label)
        &&& opt_text(plan.profile_store_path) == Some(store_label)
        &&& is_sorted(plan.files@)
        &&& change_views(plan.progress_keys@) == planned_keys(facts, spec.ids_view())
        &&& plan.bank_plans@.len() == facts.banks@.len() + facts.target_banks@.len()
        &&& forall|i: int|
            0 <= i < facts.banks@.len() ==> plans_bank(
                #[trigger] plan.bank_plans@[i],
                facts.profile@,
                facts.banks@[i],
                facts.source_store@,
                live_note(),
            )
        &&& forall|i: int|
            0 <= i < facts.target_banks@.len() ==> plans_bank(
                #[trigger] plan.bank_plans@[facts.banks@.len() + i],
                facts.target_store@,
                facts.target_banks@[i],
                facts.profile@,
                target_note(),
            )
        &&& exists|listed: Seq<ProgressFilePlan>|
            #![trigger listed.to_multiset()]
            {
                &&& listed.to_multiset() == plan.files@.to_multiset()
                &&& stable_sort_of(plan.files@, listed)
                &&& plans_all(listed, profile_files(facts, spec, names))
                &&& views(plan.warnings@) == lead_warnings(other_profiles, profile_label, names.len() > 0, current_title)
                    + progress_warnings(facts, spec) + save_warnings(
                    facts.profile@,
                    facts.source_store@,
                    facts.saves@,
                    spec.save_marker@,
                    names,
                ) + closing_warnings(listed, names.len() > 0, spec.save_marker@)
            }
    })
}

/// The plan for a selected profile of a slot: what a switch of the slot
/// would snapshot and restore, in order of the files' relative paths, with
/// the flags, the bank plans and every warning. `names` are the lower-cased
/// dependency names of the campaign now installed in the slot.
pub fn plan_slot_profile(
    facts: &ProfileFacts,
    spec: &CampaignProfileSpec,
    names: &[String],
    profile_label: String,
    store_label: String,
    other_profiles: usize,
    current_title: Option<&str>,
) -> (r: Result<ProfilePlan, String>)
    requires
        other_profiles < usize::MAX,
        readable_lines(*facts, spec.ids_view()),
    ensures
        slot_plan_result(
            r,
            *facts,
            *spec,
            views(names@),
            profile_label@,
            store_label@,
            other_profiles as nat,
            match current_title {
                Some(t) => Some(t@),
                None => None,
            },
        ),
{
    let mut warnings: Vec<String> = Vec::new();
    let ghost w0 = views(warnings@);
    push_opt(&mut warnings, other_profiles_warning(other_profiles, profile_label.as_str()));
    let has_dependencies = names.len() > 0;
    push_opt(&mut warnings, ownership_warning(has_dependencies, current_title));
    let ghost lead = views(warnings@);
    proof {
        let title = match current_title {
            Some(t) => Some(t@),
            None => None,
        };
        assert(lead =~= lead_warnings(other_profiles as nat, profile_label@, has_dependencies, title));
    }
    let found = match plan_profile_files(facts, spec, names) {
        Ok(found) => found,
        Err(e) => {
            return Err(e);
        },
    };
    let ProfileFiles { files, progress_keys, bank_plans, warnings: found_warnings } = found;
    let ghost listed = files@;
    let mut i: usize = 0;
    while i < found_warnings.len()
        invariant
            i <= found_warnings@.len(),
            views(warnings@) == lead + views(found_warnings@).take(i as int),
        decreases found_warnings.len() - i,
    {
        let ghost before = views(warnings@);
        push_text(&mut warnings, owned(found_warnings[i].as_str()));
        proof {
            assert(views(found_warnings@).take(i as int + 1) =~= views(found_warnings@).take(i as int).push(
                found_warnings@[i as int]@,
            ));
        }
        i = i + 1;
    }
    proof {
        assert(views(found_warnings@).take(found_warnings@.len() as int) =~= views(found_warnings@));
    }
    let plan = finish_profile_plan(
        profile_label,
        store_label,
        files,
        progress_keys,
        bank_plans,
        warnings,
        has_dependencies,
        spec.save_marker.as_str(),
    );
    proof {
        let names_v = views(names@);
        let title = match current_title {
            Some(t) => Some(t@),
            None => None,
        };
        assert(listed.to_multiset() == plan.files@.to_multiset());
        assert(stable_sort_of(plan.files@, listed));
        assert(plans_all(listed, profile_files(*facts, *spec, names_v)));
        assert(views(plan.warnings@) == lead_warnings(other_profiles as nat, profile_label@, names_v.len() > 0, title)
            + progress_warnings(*facts, *spec) + save_warnings(
            facts.profile@,
            facts.source_store@,
            facts.saves@,
            spec.save_marker@,
            names_v,
        ) + closing_warnings(listed, names_v.len() > 0, spec.save_marker@));
    }
    Ok(plan)
}

/// What was found for the account profile a slot's plan reads: the facts,
/// the dependency names of the campaign now installed, the labels shown,
/// how many other profiles there are, and the current campaign's title.
#[derive(Debug, Clone, PartialEq, Eq)]
pub struct SelectedProfile {
    pub facts: ProfileFacts,
    pub names: Vec<String>,
    pub profile_label: String,
    pub store_label: String,
    pub other_profiles: usize,
    pub current_title: Option<String>,
}

/// The plan that leaves the account profile untouched, for the given reason.
pub open spec fn untouched_plan(plan: ProfilePlan, reason: ProfileSkip) -> bool {
    &&& plan.profile_path is None
    &&& plan.profile_store_path is None
    &&& plan.files@.len() == 0
    &&& plan.progress_keys@.len() == 0
    &&& plan.bank_plans@.len() == 0
    &&& views(plan.warnings@) == seq![skip_warning(reason)]
}

/// `plan_profile_transition`: what an install into `target` would do to the
/// account profile, read-only. A slot CCM has no profile mapping for, or a
/// folder that does not look like a StarCraft II install, gets the plan that
/// leaves the profile untouched, whatever was found; with no profile
/// selected, likewise; otherwise the slot's plan for the selected profile.
pub fn plan_profile_transition(
    target: &str,
    markers: &GameRootMarkers,
    selected: Option<SelectedProfile>,
) -> (r: Result<ProfilePlan, String>)
    requires
        selected matches Some(p) ==> {
            &&& p.other_profiles < usize::MAX
            &&& (is_campaign_target(target@) ==> readable_lines(p.facts, slot_progress_ids(target@)))
        },
    ensures
        !is_campaign_target(target@) ==> (r matches Ok(plan) && untouched_plan(plan, ProfileSkip::UnknownSlot)),
        is_campaign_target(target@) && !starcraft_markers(*markers) ==> (r matches Ok(plan) && untouched_plan(
            plan,
            ProfileSkip::NotStarcraft,
        )),
        is_campaign_target(target@) && starcraft_markers(*markers) && selected is None ==> (r matches Ok(plan)
            && untouched_plan(plan, ProfileSkip::NoProfile)),
        is_campaign_target(target@) && starcraft_markers(*markers) && selected is Some ==> exists|spec: CampaignProfileSpec|
            #[trigger] describes_slot(spec, target@) && slot_plan_result(
                r,
                selected->0.facts,
                spec,
                views(selected->0.names@),
                selected->0.profile_label@,
                selected->0.store_label@,
                selected->0.other_profiles as nat,
                match selected->0.current_title {
                    Some(t) => Some(t@),
                    None => None,
                },
            ),
{
    let spec = match profile_plan_start(target, markers) {
        Ok(spec) => spec,
        Err(untouched) => {
            return Ok(untouched);
        },
    };
    match selected {
        None => Ok(untouched_profile_plan(ProfileSkip::NoProfile)),
        Some(p) => {
            let title: Option<&str> = match &p.current_title {
                Some(t) => Some(t.as_str()),
                None => None,
            };
            let r = plan_slot_profile(&p.facts, &spec, &p.names, p.profile_label.clone(), p.store_label.clone(), p.other_profiles, title);
            proof {
                assert(describes_slot(spec, target@));
            }
            r
        },
    }
}

/// The game-root markers `looks_like_starcraft` reads.
pub open spec fn starcraft_markers(m: GameRootMarkers) -> bool {
    m.support64_switcher_exe_file || m.app_bundle_dir || m.versions_dir
}

/// The first step of `plan_profile_transition`: a slot CCM has no profile
/// mapping for, or a folder that does not look like a StarCraft II install,
/// gets the plan that leaves the account profile untouched (and no profile is
/// read); otherwise the slot's profile files are planned for.
pub fn profile_plan_start(target: &str, markers: &GameRootMarkers) -> (r: Result<CampaignProfileSpec, ProfilePlan>)
    ensures
        r is Ok <==> is_campaign_target(target@) && starcraft_markers(*markers),
        r matches Ok(spec) ==> describes_slot(spec, target@),
        r matches Err(plan) ==> {
            &&& plan.profile_path is None
            &&& plan.profile_store_path is None
            &&& plan.files@.len() == 0
            &&& plan.progress_keys@.len() == 0
            &&& plan.bank_plans@.len() == 0
            &&& views(plan.warnings@) == seq![
                skip_warning(
                    if !is_campaign_target(target@) {
                        ProfileSkip::UnknownSlot
                    } else {
                        ProfileSkip::NotStarcraft
                    },
                ),
            ]
        },
{
    let spec = match campaign_profile_spec(target) {
        None => {
            return Err(untouched_profile_plan(ProfileSkip::UnknownSlot));
        },
        Some(spec) => spec,
    };
    if !looks_like_starcraft(markers) {
        return Err(untouched_profile_plan(ProfileSkip::NotStarcraft));
    }
    Ok(spec)
}

} // verus!

