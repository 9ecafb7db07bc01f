//! What the game directory currently holds: the campaign in each slot, the
//! campaigns CCM manages, and the reports CCM's commands return.

use vstd::prelude::*;
use crate::local_mods::{campaign_slot_for_target, slot_for_target};
use crate::metadata::{decode_ccm_metadata, metadata_field, metadata_field_spec, metadata_outcome};
use crate::order::{insertion_sort, is_sorted, lemma_text_lt_laws, text_lt, text_lt_exec, ListOrder};
use crate::state::ManagedState;
use crate::text::{chars_eq, chars_of, concat_chars, owned, starts_with, starts_with_exec, string_from_chars};

verus! {

/// The campaign found in one slot of the game.
#[derive(Debug, Clone, PartialEq, Eq)]
pub struct CurrentCampaign {
    pub slot: String,
    pub campaign: String,
    pub title: String,
    pub author: String,
    pub version: String,
    pub is_modified: bool,
}

/// A campaign CCM installed and manages.
#[derive(Debug, Clone, PartialEq, Eq)]
pub struct ActiveCampaign {
    pub id: String,
    pub title: String,
    pub slot: String,
    pub target_path: String,
    pub files: usize,
}

/// The report on a game directory.
#[derive(Debug, Clone, PartialEq, Eq)]
pub struct GameInspection {
    pub exists: bool,
    pub path: String,
    pub looks_like_starcraft: bool,
    pub active_campaign: Option<ActiveCampaign>,
    pub managed_campaigns: Vec<ActiveCampaign>,
    pub active_campaigns: Vec<CurrentCampaign>,
    pub can_launch: bool,
    pub recovery_performed: bool,
}

#[derive(Debug, Clone, PartialEq, Eq)]
pub struct LaunchResult {
    pub message: String,
}

#[derive(Debug, Clone, PartialEq, Eq)]
pub struct GameDirectoryCandidate {
    pub path: String,
    pub label: String,
}

#[derive(Debug, Clone, PartialEq, Eq)]
pub struct StarcraftProfileCandidate {
    pub path: String,
    pub label: String,
}

#[derive(Debug, Clone, PartialEq, Eq)]
pub struct InstallResult {
    pub campaign_id: String,
    pub title: String,
    pub version: String,
    pub manifest_path: String,
    pub package_sha256: String,
    pub files_installed: usize,
}

#[derive(Debug, Clone, PartialEq, Eq)]
pub struct RestoreResult {
    pub restored_files: usize,
    pub conflicts: Vec<String>,
}

// ----------------------------------------------------------------------
// The campaign in each slot
// ----------------------------------------------------------------------

/// The four slots: slot name, campaign name, branch.
pub open spec fn slot_table() -> Seq<(Seq<char>, Seq<char>, Seq<char>)> {
    seq![
        ("wings-of-liberty"@, "Wings of Liberty"@, "Maps/Campaign"@),
        ("heart-of-the-swarm"@, "Heart of the Swarm"@, "Maps/Campaign/swarm"@),
        ("legacy-of-the-void"@, "Legacy of the Void"@, "Maps/Campaign/void"@),
        ("nova-covert-ops"@, "Nova Covert Ops"@, "Maps/Campaign/nova"@),
    ]
}

pub open spec fn field_or(metadata: Seq<char>, name: Seq<char>, fallback: Seq<char>) -> Seq<char> {
    match metadata_field_spec(metadata, name) {
        Some(v) => v,
        None => fallback,
    }
}

/// The campaign of a slot whose `metadata.txt` has the given text (or is absent).
pub open spec fn current_campaign_fields(c: CurrentCampaign, slot: Seq<char>, campaign: Seq<char>, metadata: Option<Seq<char>>) -> bool {
    &&& c.slot@ == slot
    &&& c.campaign@ == campaign
    &&& match metadata {
        None => {
            &&& c.title@ == "Original or untracked "@ + campaign
            &&& c.author@ == "No CCM metadata.txt found"@
            &&& c.version@ == "Unknown"@
            &&& !c.is_modified
        },
        Some(m) => {
            &&& c.title@ == field_or(m, "title"@, "Custom "@ + campaign)
            &&& c.author@ == field_or(m, "author"@, "Unknown author"@)
            &&& c.version@ == field_or(m, "version"@, "Unknown version"@)
            &&& c.is_modified
        },
    }
}

fn field_or_exec(metadata: &str, name: &str, fallback: String) -> (r: String)
    ensures
        r@ == field_or(metadata@, name@, fallback@),
{
    match metadata_field(metadata, name) {
        Some(v) => v,
        None => fallback,
    }
}

fn prefixed(a: &str, b: &str) -> (r: String)
    ensures
        r@ == a@ + b@,
{
    string_from_chars(&concat_chars(&chars_of(a), &chars_of(b)))
}

/// The campaign of one slot, from its decoded `metadata.txt` if it has one.
pub fn current_campaign(slot: &str, campaign: &str, metadata: Option<&str>) -> (r: CurrentCampaign)
    ensures
        current_campaign_fields(r, slot@, campaign@, match metadata {
            Some(m) => Some(m@),
            None => None,
        }),
{
    match metadata {
        None => CurrentCampaign {
            slot: owned(slot),
            campaign: owned(campaign),
            title: prefixed("Original or untracked ", campaign),
            author: owned("No CCM metadata.txt found"),
            version: owned("Unknown"),
            is_modified: false,
        },
        Some(m) => CurrentCampaign {
            slot: owned(slot),
            campaign: owned(campaign),
            title: field_or_exec(m, "title", prefixed("Custom ", campaign)),
            author: field_or_exec(m, "author", owned("Unknown author")),
            version: field_or_exec(m, "version", owned("Unknown version")),
            is_modified: true,
        },
    }
}

/// A slot's `metadata.txt` is absent or decodes.
pub open spec fn slot_metadata_ok(m: Option<Vec<u8>>) -> bool {
    match m {
        Some(b) => metadata_outcome(b@) is Ok,
        None => true,
    }
}

/// The decoding error of the first slot from `i` on whose `metadata.txt`
/// does not decode.
pub open spec fn first_metadata_error(m: Seq<Option<Vec<u8>>>, i: int) -> Option<Seq<char>>
    decreases m.len() - i,
{
    if i < 0 || i >= m.len() {
        None
    } else {
        match m[i] {
            Some(b) => match metadata_outcome(b@) {
                Err(e) => Some(e),
                Ok(_) => first_metadata_error(m, i + 1),
            },
            None => first_metadata_error(m, i + 1),
        }
    }
}

/// `inspect_current_campaigns`: `metadata[i]` holds the bytes of the
/// `metadata.txt` of slot `i` (in `slot_table` order) where there is one.
pub fn inspect_current_campaigns(metadata: &Vec<Option<Vec<u8>>>) -> (r: Result<Vec<CurrentCampaign>, String>)
    requires
        metadata@.len() == 4,
    ensures
        match r {
            Ok(v) => v@.len() == 4 && forall|i: int|
                0 <= i < 4 ==> current_campaign_fields(
                    #[trigger] v@[i],
                    slot_table()[i].0,
                    slot_table()[i].1,
                    match metadata@[i] {
                        Some(b) => Some(metadata_outcome(b@)->Ok_0),
                        None => None,
                    },
                ) && slot_metadata_ok(metadata@[i]),
            Err(e) => first_metadata_error(metadata@, 0) == Some(e@),
        },
{
    let slots = ["wings-of-liberty", "heart-of-the-swarm", "legacy-of-the-void", "nova-covert-ops"];
    let names = ["Wings of Liberty", "Heart of the Swarm", "Legacy of the Void", "Nova Covert Ops"];
    let mut out: Vec<CurrentCampaign> = Vec::new();
    let mut i: usize = 0;
    while i < 4
        invariant
            i <= 4,
            metadata@.len() == 4,
            out@.len() == i,
            first_metadata_error(metadata@, 0) == first_metadata_error(metadata@, i as int),
            forall|k: int| 0 <= k < 4 ==> #[trigger] slots@[k]@ == slot_table()[k].0 && names@[k]@ == slot_table()[k].1,
            forall|j: int|
                0 <= j < i ==> current_campaign_fields(
                    #[trigger] out@[j],
                    slot_table()[j].0,
                    slot_table()[j].1,
                    match metadata@[j] {
                        Some(b) => Some(metadata_outcome(b@)->Ok_0),
                        None => None,
                    },
                ) && slot_metadata_ok(metadata@[j]),
        decreases 4 - i,
    {
        let c = match &metadata[i] {
            None => current_campaign(slots[i], names[i], None),
            Some(bytes) => {
                let text = match decode_ccm_metadata(bytes.as_slice()) {
                    Ok(t) => t,
                    Err(e) => {
                        return Err(e);
                    },
                };
                current_campaign(slots[i], names[i], Some(text.as_str()))
            },
        };
        out.push(c);
        i = i + 1;
    }
    Ok(out)
}

/// Index of the first campaign in `slot`, or the list's length.
fn find_slot(active: &Vec<CurrentCampaign>, slot: &[char]) -> (r: usize)
    ensures
        r <= active@.len(),
        forall|j: int| 0 <= j < r ==> #[trigger] active@[j].slot@ != slot@,
        r < active@.len() ==> active@[r as int].slot@ == slot@,
{
    let mut i: usize = 0;
    while i < active.len()
        invariant
            i <= active.len(),
            forall|j: int| 0 <= j < i ==> #[trigger] active@[j].slot@ != slot@,
        decreases active.len() - i,
    {
        if chars_eq(&chars_of(active[i].slot.as_str()), slot) {
            return i;
        }
        i = i + 1;
    }
    i
}

/// Whether a known campaign names slot entry `i`: a local package whose
/// branch is that entry's slot (its first entry), untracked, and whose files
/// match the game's.
pub open spec fn known_applies(
    active: Seq<CurrentCampaign>,
    i: int,
    source: Seq<char>,
    target: Option<Seq<char>>,
    package_matches: bool,
) -> bool {
    &&& !starts_with(source, "https://"@)
    &&& package_matches
    &&& target matches Some(t) && slot_for_target(t) == Some(active[i].slot@)
    &&& forall|j: int| 0 <= j < i ==> #[trigger] active[j].slot@ != active[i].slot@
    &&& !active[i].is_modified
}

/// Naming an untracked slot after one known catalog campaign: a local package
/// that installs to a slot whose files are untracked and match the package
/// names that slot's campaign.
pub fn identify_catalog_campaign(
    active: &mut Vec<CurrentCampaign>,
    source: &str,
    package_target: Option<&str>,
    package_matches: bool,
    title: &str,
    author: &str,
    version: &str,
)
    ensures
        final(active)@.len() == old(active)@.len(),
        forall|i: int|
            #![trigger final(active)@[i]]
            0 <= i < old(active)@.len() ==> if known_applies(old(active)@, i, source@, match package_target {
                Some(t) => Some(t@),
                None => None,
            }, package_matches) {
                final(active)@[i].slot@ == old(active)@[i].slot@ && final(active)@[i].campaign@ == old(active)@[i].campaign@
                    && final(active)@[i].title@ == title@ && final(active)@[i].author@ == author@
                    && final(active)@[i].version@ == version@ && final(active)@[i].is_modified
            } else {
                final(active)@[i] == old(active)@[i]
            },
{
    if starts_with_exec(&chars_of(source), &chars_of("https://")) {
        return;
    }
    let target = match package_target {
        Some(t) => t,
        None => {
            return;
        },
    };
    let slot = match campaign_slot_for_target(target) {
        Some(s) => s,
        None => {
            return;
        },
    };
    let i = find_slot(active, &chars_of(slot.as_str()));
    if i == active.len() || active[i].is_modified || !package_matches {
        proof {
            assert forall|k: int| 0 <= k < old(active)@.len() && k != i implies !(slot_for_target(target@) == Some(
                old(active)@[k].slot@,
            ) && (forall|j: int| 0 <= j < k ==> #[trigger] old(active)@[j].slot@ != old(active)@[k].slot@)) by {
                if k > i && i < old(active)@.len() && slot_for_target(target@) == Some(old(active)@[k].slot@) {
                    assert(old(active)@[i as int].slot@ == old(active)@[k].slot@);
                }
            }
        }
        return;
    }
    let current = CurrentCampaign {
        slot: owned(active[i].slot.as_str()),
        campaign: owned(active[i].campaign.as_str()),
        title: owned(title),
        author: owned(author),
        version: owned(version),
        is_modified: true,
    };
    let ghost before = active@;
    active.set(i, current);
    proof {
        assert forall|k: int| 0 <= k < old(active)@.len() && k != i implies !(slot_for_target(target@) == Some(
            old(active)@[k].slot@,
        ) && (forall|j: int| 0 <= j < k ==> #[trigger] old(active)@[j].slot@ != old(active)@[k].slot@)) by {
            if k > i && slot_for_target(target@) == Some(old(active)@[k].slot@) {
                assert(old(active)@[i as int].slot@ == old(active)@[k].slot@);
            }
        }
    }
}

// ----------------------------------------------------------------------
// Managed campaigns
// ----------------------------------------------------------------------

/// The managed campaign a state describes.
pub open spec fn active_from_state(a: ActiveCampaign, s: ManagedState) -> bool {
    let target = crate::state::state_target(s);
    &&& a.id@ == s.campaign_id@
    &&& a.title@ == s.title@
    &&& a.slot@ == (match slot_for_target(target) {
        Some(x) => x,
        None => Seq::empty(),
    })
    &&& a.target_path@ == target
    &&& a.files == s.files@.len()
}

/// The managed campaign a state describes.
pub fn active_campaign(state: &ManagedState) -> (r: ActiveCampaign)
    ensures
        active_from_state(r, *state),
{
    let target = state.target_path_or_first_clear();
    let slot = match campaign_slot_for_target(target.as_str()) {
        Some(s) => s,
        None => String::new(),
    };
    ActiveCampaign {
        id: owned(state.campaign_id.as_str()),
        title: owned(state.title.as_str()),
        slot,
        target_path: target,
        files: state.files.len(),
    }
}

impl ListOrder for ActiveCampaign {
    open spec fn precedes(a: Self, b: Self) -> bool {
        text_lt(a.slot@, b.slot@)
    }

    proof fn lemma_order(a: Self, b: Self, c: Self) {
        lemma_text_lt_laws(a.slot@, b.slot@, c.slot@);
        lemma_text_lt_laws(a.slot@, c.slot@, b.slot@);
        lemma_text_lt_laws(b.slot@, c.slot@, a.slot@);
    }

    fn precedes_exec(a: &Self, b: &Self) -> (r: bool) {
        text_lt_exec(&chars_of(a.slot.as_str()), &chars_of(b.slot.as_str()))
    }
}

/// `inspect_game_directory` for a directory that exists: the managed
/// campaigns by slot, the first of them as the active one, and the campaign
/// found in each slot.
pub fn game_inspection(
    path: &str,
    looks_like_starcraft: bool,
    states: &Vec<ManagedState>,
    active_campaigns: Vec<CurrentCampaign>,
    can_launch: bool,
) -> (r: GameInspection)
    ensures
        r.exists,
        r.path@ == path@,
        r.looks_like_starcraft == looks_like_starcraft,
        r.managed_campaigns@.len() == states@.len(),
        is_sorted(r.managed_campaigns@),
        forall|i: int|
            #![trigger states@[i]]
            0 <= i < states@.len() ==> exists|j: int|
                0 <= j < r.managed_campaigns@.len() && active_from_state(#[trigger] r.managed_campaigns@[j], states@[i]),
        forall|j: int|
            #![trigger r.managed_campaigns@[j]]
            0 <= j < r.managed_campaigns@.len() ==> exists|i: int|
                0 <= i < states@.len() && active_from_state(r.managed_campaigns@[j], #[trigger] states@[i]),
        match r.active_campaign {
            Some(a) => r.managed_campaigns@.len() > 0 && a.id@ == r.managed_campaigns@[0].id@ && a.title@
                == r.managed_campaigns@[0].title@ && a.slot@ == r.managed_campaigns@[0].slot@ && a.target_path@
                == r.managed_campaigns@[0].target_path@ && a.files == r.managed_campaigns@[0].files,
            None => r.managed_campaigns@.len() == 0,
        },
        r.active_campaigns == active_campaigns,
        r.can_launch == can_launch,
        !r.recovery_performed,
{
    let mut managed: Vec<ActiveCampaign> = Vec::new();
    let mut i: usize = 0;
    while i < states.len()
        invariant
            i <= states.len(),
            managed@.len() == i,
            forall|j: int| 0 <= j < i ==> active_from_state(#[trigger] managed@[j], states@[j]),
        decreases states.len() - i,
    {
        managed.push(active_campaign(&states[i]));
        i = i + 1;
    }
    let ghost unsorted = managed@;
    insertion_sort(managed.as_mut_slice());
    proof {
        assert forall|i: int| #![trigger states@[i]] 0 <= i < states@.len() implies exists|j: int|
            0 <= j < managed@.len() && active_from_state(#[trigger] managed@[j], states@[i]) by {
            unsorted.to_multiset_ensures();
            managed@.to_multiset_ensures();
            assert(unsorted.contains(unsorted[i]));
            assert(unsorted.to_multiset().count(unsorted[i]) > 0);
            assert(managed@.to_multiset().count(unsorted[i]) > 0);
            assert(managed@.contains(unsorted[i]));
        }
        assert forall|j: int| #![trigger managed@[j]] 0 <= j < managed@.len() implies exists|i: int|
            0 <= i < states@.len() && active_from_state(managed@[j], #[trigger] states@[i]) by {
            unsorted.to_multiset_ensures();
            managed@.to_multiset_ensures();
            assert(managed@.contains(managed@[j]));
            assert(managed@.to_multiset().count(managed@[j]) > 0);
            assert(unsorted.to_multiset().count(managed@[j]) > 0);
            assert(unsorted.contains(managed@[j]));
        }
    }
    let active_campaign = if managed.len() > 0 {
        let a = &managed[0];
        Some(ActiveCampaign {
            id: owned(a.id.as_str()),
            title: owned(a.title.as_str()),
            slot: owned(a.slot.as_str()),
            target_path: owned(a.target_path.as_str()),
            files: a.files,
        })
    } else {
        None
    };
    GameInspection {
        exists: true,
        path: owned(path),
        looks_like_starcraft,
        active_campaign,
        managed_campaigns: managed,
        active_campaigns,
        can_launch,
        recovery_performed: false,
    }
}

/// `inspect_game_directory` for a directory that does not exist.
pub fn missing_game_inspection(path: &str) -> (r: GameInspection)
    ensures
        !r.exists,
        r.path@ == path@,
        !r.looks_like_starcraft,
        r.active_campaign is None,
        r.managed_campaigns@.len() == 0,
        r.active_campaigns@.len() == 0,
        !r.can_launch,
        !r.recovery_performed,
{
    GameInspection {
        exists: false,
        path: owned(path),
        looks_like_starcraft: false,
        active_campaign: None,
        managed_campaigns: Vec::new(),
        active_campaigns: Vec::new(),
        can_launch: false,
        recovery_performed: false,
    }
}

/// The report once the game was started for the current campaign.
pub fn launch_result() -> (r: LaunchResult)
    ensures
        r.message@ == "StarCraft II launched. Choose Continue to resume the current campaign."@,
{
    LaunchResult { message: owned("StarCraft II launched. Choose Continue to resume the current campaign.") }
}

// ----------------------------------------------------------------------
// Directories and profiles offered to the player
// ----------------------------------------------------------------------

/// `game_directory_candidate`: a game root, labelled by its path.
pub fn game_directory_candidate(path: &str) -> (r: GameDirectoryCandidate)
    ensures
        r.path@ == path@,
        r.label@ == path@,
{
    GameDirectoryCandidate { label: owned(path), path: owned(path) }
}

/// `display_profile_path`: a path under the home directory as `~/...`.
pub open spec fn display_path(path: Seq<char>, home: Option<Seq<char>>) -> Seq<char> {
    match home {
        Some(h) => match crate::campaign_profile::relative_under(h, path) {
            Some(rel) => "~/"@ + rel,
            None => path,
        },
        None => path,
    }
}

/// A profile path as shown to the player, with the home folder as `~`.
pub fn display_profile_path(path: &str, home: Option<&str>) -> (r: String)
    ensures
        r@ == display_path(path@, match home {
            Some(h) => Some(h@),
            None => None,
        }),
{
    match home {
        Some(h) => match crate::campaign_profile::relative_profile_path(h, path) {
            Some(rel) => prefixed("~/", rel.as_str()),
            None => owned(path),
        },
        None => owned(path),
    }
}

/// A StarCraft II account profile offered to the player.
pub fn starcraft_profile_candidate(path: &str, home: Option<&str>) -> (r: StarcraftProfileCandidate)
    ensures
        r.path@ == path@,
        r.label@ == display_path(path@, match home {
            Some(h) => Some(h@),
            None => None,
        }),
{
    StarcraftProfileCandidate { label: display_profile_path(path, home), path: owned(path) }
}

} // verus!
