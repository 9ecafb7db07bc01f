//! Switching a campaign slot's account-profile files from one campaign to
//! another: which saves each campaign owns, where its snapshot is stored,
//! what the planner warns about, and how the progress file is rewritten.

use vstd::prelude::*;
use crate::campaign_profile::{
    details_match_campaign, details_match_dependencies, details_summary, in_campaign_save_folder, is_progress_node,
    merge_progress_node, replace_node, reset_line, reset_progress_node, save_details_match_campaign,
    save_details_match_dependencies, save_details_summary, save_filename_matches, save_filename_matches_spec,
    first_node_line, CampaignProfileSpec, ProgressKeyChange, SaveDetails,
};
use crate::cli::{debug_quoted, debug_text};
use crate::install_plan::{BankPlan, ProgressFilePlan};
use crate::local_mods::slot_for_target;
use crate::order::{insertion_sort, is_sorted, stable_sort_of, lemma_text_lt_laws, text_lt, text_lt_exec, ListOrder};
use crate::paths::components;
use crate::resume::{is_save_file, is_save_file_exec};
use crate::text::{chars_eq, chars_of, concat_chars, decimal, decimal_exec, owned, starts_with, starts_with_exec, string_from_chars, views};

verus! {

// ----------------------------------------------------------------------
// Where snapshots are stored
// ----------------------------------------------------------------------

pub open spec fn no_mapping_error(target: Seq<char>) -> Seq<char> {
    "No campaign profile mapping exists for "@ + target + "."@
}

/// The store key of the campaign a switch leaves: its ID, or
/// `vanilla-<slot>` for the unmodified campaign.
pub open spec fn source_key_outcome(source_campaign_id: Seq<char>, target: Seq<char>) -> Result<Seq<char>, Seq<char>> {
    if source_campaign_id.len() > 0 {
        Ok(source_campaign_id)
    } else {
        match slot_for_target(target) {
            Some(slot) => Ok("vanilla-"@ + slot),
            None => Err(no_mapping_error(target)),
        }
    }
}

fn text3(a: &str, b: &str, c: &str) -> (r: String)
    ensures
        r@ == a@ + b@ + c@,
{
    string_from_chars(&concat_chars(&concat_chars(&chars_of(a), &chars_of(b)), &chars_of(c)))
}

/// The profile-store key of the campaign a switch leaves.
pub fn source_profile_key(source_campaign_id: &str, target: &str) -> (r: Result<String, String>)
    ensures
        match r {
            Ok(k) => source_key_outcome(source_campaign_id@, target@) == Ok::<Seq<char>, Seq<char>>(k@),
            Err(e) => source_key_outcome(source_campaign_id@, target@) == Err::<Seq<char>, Seq<char>>(e@),
        },
{
    if !source_campaign_id.is_empty() {
        return Ok(owned(source_campaign_id));
    }
    match crate::local_mods::campaign_slot_for_target(target) {
        Some(slot) => Ok(string_from_chars(&concat_chars(&chars_of("vanilla-"), &chars_of(slot.as_str())))),
        None => Err(text3("No campaign profile mapping exists for ", target, ".")),
    }
}

/// How the planner names the profile stores a switch uses: one store, or
/// `source → target`.
pub fn profile_store_label(source_label: &str, target_label: &str, same_store: bool) -> (r: String)
    ensures
        r@ == if same_store { target_label@ } else { source_label@ + " → "@ + target_label@ },
{
    if same_store {
        owned(target_label)
    } else {
        text3(source_label, " → ", target_label)
    }
}

/// The warning when several account profiles were found.
pub fn other_profiles_warning(other_profiles: usize, label: &str) -> (r: Option<String>)
    requires
        other_profiles < usize::MAX,
    ensures
        match r {
            Some(w) => other_profiles > 0 && w@ == decimal((other_profiles + 1) as nat)
                + " StarCraft II profiles found; selected "@ + label@ + " and will leave the others untouched."@,
            None => other_profiles == 0,
        },
{
    if other_profiles == 0 {
        return None;
    }
    let count = decimal_exec((other_profiles + 1) as u64);
    let m = concat_chars(&count, &chars_of(" StarCraft II profiles found; selected "));
    Some(string_from_chars(&concat_chars(&concat_chars(&m, &chars_of(label)), &chars_of(" and will leave the others untouched."))))
}

/// The warning that saves are matched to the current managed campaign.
pub fn ownership_warning(has_dependencies: bool, current_title: Option<&str>) -> (r: Option<String>)
    ensures
        match r {
            Some(w) => has_dependencies && current_title is Some && w@ == "Save ownership is matched to the current managed campaign "@
                + debug_text(current_title->Some_0@)
                + "; its profile is the destination for these snapshots. Saves from other campaigns remain untouched."@,
            None => !has_dependencies || current_title is None,
        },
{
    if !has_dependencies {
        return None;
    }
    match current_title {
        Some(title) => Some(text3(
            "Save ownership is matched to the current managed campaign ",
            debug_quoted(title).as_str(),
            "; its profile is the destination for these snapshots. Saves from other campaigns remain untouched.",
        )),
        None => None,
    }
}

// ----------------------------------------------------------------------
// Which saves a campaign owns
// ----------------------------------------------------------------------

/// What the planner does with a file under the profile's `Saves`.
#[derive(Debug, Clone, PartialEq, Eq)]
pub enum SaveClass {
    /// Not a campaign save of this slot.
    Skip,
    /// Named after the slot: it belongs to the slot whatever its details say.
    SlotNamed,
    /// In a campaign save folder: its `save.details` decide.
    Inspect,
}

pub open spec fn file_name_of(path: Seq<char>) -> Seq<char> {
    let cs = components(path);
    if cs.len() > 0 { cs.last() } else { Seq::empty() }
}

pub open spec fn name_matches(relative: Seq<char>, marker: Seq<char>) -> bool {
    components(relative).len() > 0 && save_filename_matches_spec(file_name_of(relative), marker)
}

pub open spec fn save_class(relative: Seq<char>, marker: Seq<char>) -> SaveClass {
    if !is_save_file(relative) {
        SaveClass::Skip
    } else if name_matches(relative, marker) {
        SaveClass::SlotNamed
    } else if in_campaign_save_folder(relative) {
        SaveClass::Inspect
    } else {
        SaveClass::Skip
    }
}

fn name_matches_exec(relative: &str, spec: &CampaignProfileSpec) -> (r: bool)
    ensures
        r == name_matches(relative@, spec.save_marker@),
{
    let cs = crate::paths::components_exec(&chars_of(relative));
    if cs.len() == 0 {
        return false;
    }
    let name = string_from_chars(&cs[cs.len() - 1]);
    save_filename_matches(name.as_str(), spec)
}

fn in_folder_exec(relative: &str) -> (r: bool)
    ensures
        r == in_campaign_save_folder(relative@),
{
    let l = crate::text::lower_exec(&chars_of(relative));
    starts_with_exec(&l, &chars_of("saves/campaign/")) || starts_with_exec(&l, &chars_of("saves/unsaved/campaign/"))
}

/// How the planner treats a save by its profile-relative path.
pub fn classify_profile_save(relative: &str, spec: &CampaignProfileSpec) -> (r: SaveClass)
    ensures
        r == save_class(relative@, spec.save_marker@),
{
    if !is_save_file_exec(relative) {
        SaveClass::Skip
    } else if name_matches_exec(relative, spec) {
        SaveClass::SlotNamed
    } else if in_folder_exec(relative) {
        SaveClass::Inspect
    } else {
        SaveClass::Skip
    }
}

/// A save in a campaign folder is snapshotted with the slot when its details
/// name the slot's campaign and one of the current campaign's dependencies.
pub open spec fn inspected_save_belongs(d: SaveDetails, marker: Seq<char>, names: Seq<Seq<char>>) -> bool {
    details_match_campaign(views(d.maps@), views(d.campaigns@), marker) && details_match_dependencies(views(d.mods@), names)
}

/// The planner's verdict on an inspected save: whether it moves, its one-line
/// description, and the warning when its details could not be read.
#[derive(Debug, Clone, PartialEq, Eq)]
pub struct SaveVerdict {
    pub belongs: bool,
    pub detail: Option<String>,
    pub warning: Option<String>,
}

pub open spec fn opt_text(o: Option<String>) -> Option<Seq<char>> {
    match o {
        Some(s) => Some(s@),
        None => None,
    }
}

/// `plan_profile_transition`, for a save it inspects.
pub fn inspected_save_verdict(
    details: Result<SaveDetails, String>,
    spec: &CampaignProfileSpec,
    dependency_names: &[String],
    relative: &str,
) -> (r: SaveVerdict)
    ensures
        match details {
            Ok(d) => r.belongs == inspected_save_belongs(d, spec.save_marker@, views(dependency_names@))
                && opt_text(r.detail) == details_summary(views(d.maps@), views(d.mods@), views(d.campaigns@)) && r.warning is None,
            Err(e) => !r.belongs && r.detail is None && opt_text(r.warning) == Some(
                "Could not inspect "@ + relative@ + ": "@ + e@ + "; it will be left untouched."@,
            ),
        },
{
    match details {
        Ok(d) => {
            let belongs = save_details_match_campaign(&d, spec) && save_details_match_dependencies(&d, dependency_names);
            SaveVerdict { belongs, detail: save_details_summary(&d), warning: None }
        },
        Err(e) => {
            let m = concat_chars(&chars_of("Could not inspect "), &chars_of(relative));
            let m = concat_chars(&concat_chars(&m, &chars_of(": ")), &chars_of(e.as_str()));
            let m = concat_chars(&m, &chars_of("; it will be left untouched."));
            SaveVerdict { belongs: false, detail: None, warning: Some(string_from_chars(&m)) }
        },
    }
}

/// `campaign_owned_save_paths`, for one save: slot-named saves always
/// belong; saves in campaign folders belong when their details name the slot
/// and (where dependency names are known) one of them, or, without names,
/// when unmanaged saves are allowed.
pub open spec fn owned_save(
    relative: Seq<char>,
    details: Option<SaveDetails>,
    marker: Seq<char>,
    names: Seq<Seq<char>>,
    allow_unmanaged: bool,
) -> bool {
    match save_class(relative, marker) {
        SaveClass::Skip => false,
        SaveClass::SlotNamed => true,
        SaveClass::Inspect => match details {
            None => false,
            Some(d) => details_match_campaign(views(d.maps@), views(d.campaigns@), marker) && if names.len() == 0 {
                allow_unmanaged
            } else {
                details_match_dependencies(views(d.mods@), names)
            },
        },
    }
}

/// `campaign_owned_save_paths`, for one save; `details` is what its
/// `save.details` gave, if it could be read.
pub fn is_campaign_owned_save(
    relative: &str,
    details: &Option<SaveDetails>,
    spec: &CampaignProfileSpec,
    dependency_names: &[String],
    allow_unmanaged: bool,
) -> (r: bool)
    ensures
        r == owned_save(relative@, *details, spec.save_marker@, views(dependency_names@), allow_unmanaged),
{
    match classify_profile_save(relative, spec) {
        SaveClass::Skip => false,
        SaveClass::SlotNamed => true,
        SaveClass::Inspect => match details {
            None => false,
            Some(d) => {
                let campaign_match = save_details_match_campaign(d, spec);
                let dependency_match = if dependency_names.len() == 0 {
                    allow_unmanaged
                } else {
                    save_details_match_dependencies(d, dependency_names)
                };
                campaign_match && dependency_match
            },
        },
    }
}

/// The dependency names the target's stored profile is matched against:
/// the target's, plus (when a campaign is switched onto itself) the source's
/// that are missing, in order.
pub open spec fn merged_names(same_campaign: bool, source: Seq<Seq<char>>, target: Seq<Seq<char>>) -> Seq<Seq<char>>
    decreases source.len(),
{
    if !same_campaign || source.len() == 0 {
        target
    } else {
        let prev = merged_names(same_campaign, source.drop_last(), target);
        if prev.contains(source.last()) {
            prev
        } else {
            prev.push(source.last())
        }
    }
}

/// The dependency names a switch matches the target campaign's saves by:
/// the target's own, and, when the branch stays with the same campaign,
/// the source's too.
pub fn target_profile_dependency_names(
    source_campaign_id: &str,
    source_names: &[String],
    target_campaign_id: &str,
    target_names: &[String],
) -> (r: Vec<String>)
    ensures
        views(r@) == merged_names(source_campaign_id@ == target_campaign_id@, views(source_names@), views(target_names@)),
{
    let same = chars_eq(&chars_of(source_campaign_id), &chars_of(target_campaign_id));
    let mut out: Vec<String> = Vec::new();
    let mut i: usize = 0;
    while i < target_names.len()
        invariant
            i <= target_names.len(),
            views(out@) == views(target_names@).take(i as int),
        decreases target_names.len() - i,
    {
        let ghost before = out@;
        out.push(owned(target_names[i].as_str()));
        proof {
            assert(views(out@) =~= views(before).push(target_names@[i as int]@));
            assert(views(target_names@).take(i as int + 1) =~= views(target_names@).take(i as int).push(target_names@[i as int]@));
        }
        i = i + 1;
    }
    proof {
        assert(views(target_names@).take(target_names@.len() as int) =~= views(target_names@));
    }
    if !same {
        return out;
    }
    let ghost sv = views(source_names@);
    let mut j: usize = 0;
    proof {
        assert(sv.take(0) =~= Seq::<Seq<char>>::empty());
    }
    while j < source_names.len()
        invariant
            j <= source_names.len(),
            same,
            sv == views(source_names@),
            views(out@) == merged_names(true, sv.take(j as int), views(target_names@)),
        decreases source_names.len() - j,
    {
        proof {
            assert(sv.take(j as int + 1).drop_last() =~= sv.take(j as int));
            assert(sv.take(j as int + 1).last() == source_names@[j as int]@);
        }
        let name = chars_of(source_names[j].as_str());
        let mut seen = false;
        let mut k: usize = 0;
        while k < out.len()
            invariant
                k <= out.len(),
                name@ == source_names@[j as int]@,
                !seen ==> forall|m: int| 0 <= m < k ==> #[trigger] views(out@)[m] != name@,
                seen ==> views(out@).contains(name@),
            decreases out.len() - k,
        {
            if chars_eq(&chars_of(out[k].as_str()), &name) {
                proof {
                    assert(views(out@)[k as int] == name@);
                }
                seen = true;
            }
            k = k + 1;
        }
        if !seen {
            let ghost before = out@;
            out.push(string_from_chars(&name));
            proof {
                assert(views(out@) =~= views(before).push(name@));
            }
        }
        j = j + 1;
    }
    proof {
        assert(sv.take(sv.len() as int) =~= sv);
    }
    out
}

/// How a switch tells which saves belong to each side: the dependency names
/// it matches each side's saves by, and whether a side also claims campaign
/// saves that name no dependency.
#[derive(Debug, Clone, PartialEq, Eq)]
pub struct SaveMatching {
    pub source_names: Vec<String>,
    pub target_names: Vec<String>,
    /// The campaign being left is the unmodified one (no campaign ID).
    pub source_allows_unmanaged: bool,
    /// The target is the unmodified campaign's store (`vanilla-<slot>`).
    pub target_allows_unmanaged: bool,
}

/// The save matching of a switch from `source_campaign_id` (empty for the
/// unmodified campaign) to `target_campaign_id`, with each side's dependency
/// names.
pub fn save_matching(
    source_campaign_id: &str,
    source_names: Vec<String>,
    target_campaign_id: &str,
    target_names: &[String],
) -> (r: SaveMatching)
    ensures
        r.source_names == source_names,
        views(r.target_names@) == merged_names(
            source_campaign_id@ == target_campaign_id@,
            views(source_names@),
            views(target_names@),
        ),
        r.source_allows_unmanaged == (source_campaign_id@.len() == 0),
        r.target_allows_unmanaged == starts_with(target_campaign_id@, "vanilla-"@),
{
    let target = target_profile_dependency_names(source_campaign_id, &source_names, target_campaign_id, target_names);
    SaveMatching {
        source_names,
        target_names: target,
        source_allows_unmanaged: source_campaign_id.is_empty(),
        target_allows_unmanaged: starts_with_exec(&chars_of(target_campaign_id), &chars_of("vanilla-")),
    }
}

// ----------------------------------------------------------------------
// Rewriting the progress file
// ----------------------------------------------------------------------

/// The progress file after a switch: the target's stored node when its store
/// has a progress file, else the node with its flags reset.
pub open spec fn switched_progress(current: Seq<char>, stored: Option<Seq<char>>, ids: Seq<Seq<char>>) -> Seq<char> {
    match stored {
        Some(s) => match first_node_line(crate::text::lines(s), ids, 0) {
            None => current,
            Some(line) => replace_node(current, ids, |l: Seq<char>| line).0,
        },
        None => replace_node(current, ids, |l: Seq<char>| reset_line(l)).0,
    }
}

/// The new text of `CampaignProgress.xml` after a switch, if it changes.
pub fn progress_update(current: &str, stored: Option<&str>, spec: &CampaignProfileSpec) -> (r: Option<String>)
    ensures
        match r {
            Some(t) => t@ == switched_progress(current@, match stored {
                Some(s) => Some(s@),
                None => None,
            }, spec.ids_view()) && t@ != current@,
            None => switched_progress(current@, match stored {
                Some(s) => Some(s@),
                None => None,
            }, spec.ids_view()) == current@,
        },
{
    let updated = match stored {
        Some(s) => merge_progress_node(current, s, spec).0,
        None => reset_progress_node(current, spec).0,
    };
    if chars_eq(&chars_of(updated.as_str()), &chars_of(current)) {
        None
    } else {
        Some(updated)
    }
}

// ----------------------------------------------------------------------
// The profile part of a dry run
// ----------------------------------------------------------------------

/// What a dry run reports about the account profile.
#[derive(Debug, Clone, PartialEq, Eq)]
pub struct ProfilePlan {
    pub profile_path: Option<String>,
    pub profile_store_path: Option<String>,
    pub files: Vec<ProgressFilePlan>,
    pub progress_keys: Vec<ProgressKeyChange>,
    pub bank_plans: Vec<BankPlan>,
    pub warnings: Vec<String>,
}

/// Why the planner leaves the profile alone.
#[derive(Debug, Clone, PartialEq, Eq)]
pub enum ProfileSkip {
    UnknownSlot,
    NotStarcraft,
    NoProfile,
}

pub open spec fn skip_warning(reason: ProfileSkip) -> Seq<char> {
    match reason {
        ProfileSkip::UnknownSlot => "Campaign profile mapping is unknown; save and progress files will be left untouched."@,
        ProfileSkip::NotStarcraft => "StarCraft II executable layout was not detected; account saves and progress were not scanned."@,
        ProfileSkip::NoProfile => "No StarCraft II account profile was found; campaign saves and progress will be left untouched."@,
    }
}

/// The profile plan that touches nothing, with the reason as its warning.
pub fn untouched_profile_plan(reason: ProfileSkip) -> (r: ProfilePlan)
    ensures
        r.profile_path is None,
        r.profile_store_path is None,
        r.files@.len() == 0,
        r.progress_keys@.len() == 0,
        r.bank_plans@.len() == 0,
        views(r.warnings@) == seq![skip_warning(reason)],
{
    let w = match reason {
        ProfileSkip::UnknownSlot => owned("Campaign profile mapping is unknown; save and progress files will be left untouched."),
        ProfileSkip::NotStarcraft => owned(
            "StarCraft II executable layout was not detected; account saves and progress were not scanned.",
        ),
        ProfileSkip::NoProfile => owned(
            "No StarCraft II account profile was found; campaign saves and progress will be left untouched.",
        ),
    };
    let mut warnings: Vec<String> = Vec::new();
    warnings.push(w);
    proof {
        assert(views(warnings@) =~= seq![skip_warning(reason)]);
    }
    ProfilePlan {
        profile_path: None,
        profile_store_path: None,
        files: Vec::new(),
        progress_keys: Vec::new(),
        bank_plans: Vec::new(),
        warnings,
    }
}

impl ListOrder for ProgressFilePlan {
    open spec fn precedes(a: Self, b: Self) -> bool {
        text_lt(a.relative_path@, b.relative_path@)
    }

    proof fn lemma_order(a: Self, b: Self, c: Self) {
        lemma_text_lt_laws(a.relative_path@, b.relative_path@, c.relative_path@);
        lemma_text_lt_laws(a.relative_path@, c.relative_path@, b.relative_path@);
        lemma_text_lt_laws(b.relative_path@, c.relative_path@, a.relative_path@);
    }

    fn precedes_exec(a: &Self, b: &Self) -> (r: bool) {
        text_lt_exec(&chars_of(a.relative_path.as_str()), &chars_of(b.relative_path.as_str()))
    }
}

pub open spec fn any_restore(files: Seq<ProgressFilePlan>) -> bool {
    exists|i: int| 0 <= i < files.len() && starts_with(#[trigger] files[i].action@, "restore"@)
}

/// The closing warnings of the profile plan, after `warnings`.
pub open spec fn closing_warnings(files: Seq<ProgressFilePlan>, has_dependencies: bool, marker: Seq<char>) -> Seq<Seq<char>> {
    (if has_dependencies {
        Seq::empty()
    } else {
        seq![
            "No managed dependency was found for the current campaign; individual campaign saves stay untouched until their mod identity is known."@,
        ]
    }) + seq![
        if files.len() == 0 {
            "No "@ + marker + " bank, save, or progress files were found in the selected profile."@
        } else if any_restore(files) {
            "Saved "@ + marker + " profile data will be restored after the current campaign profile is snapshotted."@
        } else {
            "The new "@ + marker
                + " mod profile will start clean: current bank/save files are snapshotted, and only the target campaign progress node is reset."@
        },
    ]
}

fn has_restore(files: &Vec<ProgressFilePlan>) -> (r: bool)
    ensures
        r == any_restore(files@),
{
    let mut i: usize = 0;
    while i < files.len()
        invariant
            i <= files.len(),
            forall|j: int| 0 <= j < i ==> !starts_with(#[trigger] files@[j].action@, "restore"@),
        decreases files.len() - i,
    {
        if starts_with_exec(&chars_of(files[i].action.as_str()), &chars_of("restore")) {
            return true;
        }
        i = i + 1;
    }
    false
}

/// The end of `plan_profile_transition`: the closing warnings, and the files
/// in order of their relative paths.
pub fn finish_profile_plan(
    profile_path: String,
    profile_store_path: String,
    files: Vec<ProgressFilePlan>,
    progress_keys: Vec<ProgressKeyChange>,
    bank_plans: Vec<BankPlan>,
    warnings: Vec<String>,
    has_dependencies: bool,
    marker: &str,
) -> (r: ProfilePlan)
    ensures
        opt_text(r.profile_path) == Some(profile_path@),
        opt_text(r.profile_store_path) == Some(profile_store_path@),
        r.files@.to_multiset() == files@.to_multiset(),
        is_sorted(r.files@),
        stable_sort_of(r.files@, files@),
        r.progress_keys == progress_keys,
        r.bank_plans == bank_plans,
        views(r.warnings@) == views(warnings@) + closing_warnings(files@, has_dependencies, marker@),
{
    let mut w = warnings;
    let ghost start = views(w@);
    if !has_dependencies {
        let ghost before = w@;
        w.push(owned(
            "No managed dependency was found for the current campaign; individual campaign saves stay untouched until their mod identity is known.",
        ));
        proof {
            assert(views(w@) =~= views(before).push(
                "No managed dependency was found for the current campaign; individual campaign saves stay untouched until their mod identity is known."@,
            ));
        }
    }
    let last = if files.len() == 0 {
        text3("No ", marker, " bank, save, or progress files were found in the selected profile.")
    } else if has_restore(&files) {
        text3("Saved ", marker, " profile data will be restored after the current campaign profile is snapshotted.")
    } else {
        text3(
            "The new ",
            marker,
            " mod profile will start clean: current bank/save files are snapshotted, and only the target campaign progress node is reset.",
        )
    };
    let ghost mid = w@;
    w.push(last);
    proof {
        assert(views(w@) =~= views(mid).push(last@));
        assert(views(w@) =~= start + closing_warnings(files@, has_dependencies, marker@));
    }
    let mut sorted = files;
    insertion_sort(sorted.as_mut_slice());
    ProfilePlan {
        profile_path: Some(profile_path),
        profile_store_path: Some(profile_store_path),
        files: sorted,
        progress_keys,
        bank_plans,
        warnings: w,
    }
}

} // verus!
