//! Saved-campaign inventory: which stored or live saves a campaign can be
//! resumed from, and how the inventories of several sources are merged and
//! ordered.

use vstd::prelude::*;
use crate::campaign_profile::{
    details_match_dependencies, in_campaign_save_folder, save_details_match_dependencies, SaveDetails,
};
use crate::order::{
    insertion_sort, is_sorted, stable_sort_of, lemma_text_lt_laws, opt_later, opt_later_exec, text_lt, text_lt_exec, ListOrder,
};
use crate::paths::{campaign_target_outcome, components, components_exec};
use crate::text::{chars_eq, chars_of, ends_with, ends_with_exec, lower, lower_exec, owned, views};

verus! {

/// One save a campaign can be resumed from.
#[derive(Debug, Clone, PartialEq, Eq)]
pub struct SavedCampaignSave {
    pub relative_path: String,
    pub modified_at: u64,
    pub map: Option<String>,
    pub details_available: bool,
}

/// What CCM knows about resuming one campaign.
#[derive(Debug, Clone, PartialEq, Eq)]
pub struct SavedCampaignResume {
    pub campaign_id: String,
    pub save_count: usize,
    pub latest_save: Option<SavedCampaignSave>,
    pub unverified_save_count: usize,
    pub last_played_at: Option<u64>,
    pub last_played_source: Option<String>,
    pub legacy_migration_pending: bool,
}

pub open spec fn opt_text(o: Option<String>) -> Option<Seq<char>> {
    match o {
        Some(s) => Some(s@),
        None => None,
    }
}

/// The resume's time comes from a save whose `save.details` CCM verified.
pub open spec fn is_verified(r: SavedCampaignResume) -> bool {
    opt_text(r.last_played_source) == Some("verified-save"@)
}

pub open spec fn time_or_zero(t: Option<u64>) -> u64 {
    match t {
        Some(v) => v,
        None => 0,
    }
}

/// A candidate replaces the entry for the same campaign when it was played
/// later, or at the same time but from a verified save where the entry was not.
pub open spec fn replaces(candidate: SavedCampaignResume, existing: SavedCampaignResume) -> bool {
    let c = time_or_zero(candidate.last_played_at);
    let e = time_or_zero(existing.last_played_at);
    c > e || (c == e && is_verified(candidate) && !is_verified(existing))
}

pub open spec fn resume_ids(v: Seq<SavedCampaignResume>) -> Seq<Seq<char>> {
    v.map_values(|r: SavedCampaignResume| r.campaign_id@)
}

/// Index of the first entry for campaign `id`, or -1.
pub open spec fn index_of_id(v: Seq<SavedCampaignResume>, id: Seq<char>, i: int) -> int
    decreases v.len() - i,
{
    if i < 0 || i >= v.len() {
        -1
    } else if v[i].campaign_id@ == id {
        i
    } else {
        index_of_id(v, id, i + 1)
    }
}

pub proof fn lemma_index_of_id(v: Seq<SavedCampaignResume>, id: Seq<char>, i: int)
    requires
        0 <= i,
    ensures
        index_of_id(v, id, i) == -1 ==> forall|j: int| i <= j < v.len() ==> #[trigger] v[j].campaign_id@ != id,
        index_of_id(v, id, i) != -1 ==> i <= index_of_id(v, id, i) < v.len() && v[index_of_id(v, id, i)].campaign_id@
            == id && forall|j: int| i <= j < index_of_id(v, id, i) ==> #[trigger] v[j].campaign_id@ != id,
    decreases v.len() - i,
{
    if i < v.len() && v[i].campaign_id@ != id {
        lemma_index_of_id(v, id, i + 1);
    }
}

fn resume_verified(r: &SavedCampaignResume) -> (b: bool)
    ensures
        b == is_verified(*r),
{
    match &r.last_played_source {
        Some(s) => chars_eq(&chars_of(s.as_str()), &chars_of("verified-save")),
        None => false,
    }
}

fn find_resume(resumes: &Vec<SavedCampaignResume>, id: &[char]) -> (r: Option<usize>)
    ensures
        match r {
            Some(i) => i as int == index_of_id(resumes@, id@, 0) && i < resumes@.len(),
            None => index_of_id(resumes@, id@, 0) == -1,
        },
{
    let mut i: usize = 0;
    while i < resumes.len()
        invariant
            i <= resumes.len(),
            index_of_id(resumes@, id@, 0) == index_of_id(resumes@, id@, i as int),
        decreases resumes.len() - i,
    {
        if chars_eq(&chars_of(resumes[i].campaign_id.as_str()), id) {
            return Some(i);
        }
        i = i + 1;
    }
    None
}

/// `merge_saved_campaign_resume`: adds a resume for a new campaign, or lets
/// it replace the entry for its campaign when it `replaces` it.
pub fn merge_saved_campaign_resume(resumes: &mut Vec<SavedCampaignResume>, candidate: SavedCampaignResume)
    ensures
        ({
            let k = index_of_id(old(resumes)@, candidate.campaign_id@, 0);
            if k == -1 {
                final(resumes)@ == old(resumes)@.push(candidate)
            } else if replaces(candidate, old(resumes)@[k]) {
                final(resumes)@ == old(resumes)@.update(k, candidate)
            } else {
                final(resumes)@ == old(resumes)@
            }
        }),
{
    let i = match find_resume(resumes, &chars_of(candidate.campaign_id.as_str())) {
        Some(i) => i,
        None => {
            resumes.push(candidate);
            return;
        },
    };
    let candidate_time = match candidate.last_played_at {
        Some(t) => t,
        None => 0,
    };
    let existing_time = match resumes[i].last_played_at {
        Some(t) => t,
        None => 0,
    };
    let candidate_is_verified = resume_verified(&candidate);
    let existing_is_verified = resume_verified(&resumes[i]);
    if candidate_time > existing_time || (candidate_time == existing_time && candidate_is_verified && !existing_is_verified) {
        resumes.set(i, candidate);
    }
}

/// Merging keeps one entry per campaign: if no campaign appears twice
/// before, none does after, and the candidate's campaign is listed.
pub proof fn lemma_merge_keeps_one_entry_per_campaign(
    before: Seq<SavedCampaignResume>,
    candidate: SavedCampaignResume,
    after: Seq<SavedCampaignResume>,
)
    requires
        resume_ids(before).no_duplicates(),
        ({
            let k = index_of_id(before, candidate.campaign_id@, 0);
            if k == -1 {
                after == before.push(candidate)
            } else if replaces(candidate, before[k]) {
                after == before.update(k, candidate)
            } else {
                after == before
            }
        }),
    ensures
        resume_ids(after).no_duplicates(),
        resume_ids(after).contains(candidate.campaign_id@),
{
    lemma_index_of_id(before, candidate.campaign_id@, 0);
    let k = index_of_id(before, candidate.campaign_id@, 0);
    if k == -1 {
        assert(resume_ids(after) =~= resume_ids(before).push(candidate.campaign_id@));
        assert(resume_ids(after)[before.len() as int] == candidate.campaign_id@);
        assert forall|a: int, b: int| 0 <= a < b < resume_ids(after).len() implies resume_ids(after)[a] != resume_ids(
            after,
        )[b] by {
            if b == before.len() {
                assert(before[a].campaign_id@ != candidate.campaign_id@);
            } else {
                assert(resume_ids(before)[a] != resume_ids(before)[b]);
            }
        }
    } else {
        assert(resume_ids(after) =~= resume_ids(before));
        assert(resume_ids(before)[k] == candidate.campaign_id@);
    }
}

// ----------------------------------------------------------------------
// Order of the inventory
// ----------------------------------------------------------------------

/// The inventory's order: most recently played first (unplayed last), then
/// by campaign ID.
pub open spec fn resume_precedes(a: SavedCampaignResume, b: SavedCampaignResume) -> bool {
    opt_later(a.last_played_at, b.last_played_at) || (a.last_played_at == b.last_played_at && text_lt(
        a.campaign_id@,
        b.campaign_id@,
    ))
}

impl ListOrder for SavedCampaignResume {
    open spec fn precedes(a: Self, b: Self) -> bool {
        resume_precedes(a, b)
    }

    proof fn lemma_order(a: Self, b: Self, c: Self) {
        lemma_text_lt_laws(a.campaign_id@, b.campaign_id@, c.campaign_id@);
        lemma_text_lt_laws(a.campaign_id@, c.campaign_id@, b.campaign_id@);
        lemma_text_lt_laws(b.campaign_id@, c.campaign_id@, a.campaign_id@);
    }

    fn precedes_exec(a: &Self, b: &Self) -> (r: bool) {
        if opt_later_exec(a.last_played_at, b.last_played_at) {
            return true;
        }
        let same = match (a.last_played_at, b.last_played_at) {
            (Some(x), Some(y)) => x == y,
            (None, None) => true,
            _ => false,
        };
        same && text_lt_exec(&chars_of(a.campaign_id.as_str()), &chars_of(b.campaign_id.as_str()))
    }
}

/// Arranges saved-campaign resumes in list order; the sort is stable.
pub fn sort_saved_campaign_resumes(resumes: &mut [SavedCampaignResume])
    ensures
        final(resumes)@.to_multiset() == old(resumes)@.to_multiset(),
        final(resumes)@.len() == old(resumes)@.len(),
        is_sorted(final(resumes)@),
        stable_sort_of(final(resumes)@, old(resumes)@),
{
    insertion_sort(resumes);
}

// ----------------------------------------------------------------------
// Resume manifests
// ----------------------------------------------------------------------

/// `ccm-resume.json` of a stored campaign profile.
#[derive(Debug, Clone, PartialEq, Eq)]
pub struct CampaignProfileResumeManifest {
    pub format: u32,
    pub campaign_id: String,
    pub target_path: String,
    pub dependency_names: Vec<String>,
    pub captured_at: u64,
    pub legacy_migrated: bool,
}

/// A dependency name a resume manifest may hold: a non-empty `.SC2Mod` name.
pub open spec fn dependency_name_ok(name: Seq<char>) -> bool {
    name.len() > 0 && ends_with(lower(name), ".sc2mod"@)
}

pub open spec fn resume_manifest_check(m: CampaignProfileResumeManifest, campaign_id: Seq<char>) -> Result<(), Seq<char>> {
    if m.format != 1 || m.campaign_id@ != campaign_id {
        Err("Campaign profile resume metadata does not match this campaign."@)
    } else if !crate::state::campaign_id_ok(m.campaign_id@) {
        Err(crate::state::campaign_id_error())
    } else if campaign_target_outcome(m.target_path@) is Err {
        Err(campaign_target_outcome(m.target_path@)->Err_0)
    } else if exists|i: int| 0 <= i < m.dependency_names@.len() && !dependency_name_ok(#[trigger] views(m.dependency_names@)[i]) {
        Err("Campaign profile resume metadata has invalid dependencies."@)
    } else {
        Ok(())
    }
}

/// A resume manifest after parsing: it must
/// be of format 1, for this campaign, name a campaign branch, and list only
/// `.SC2Mod` dependencies.
pub fn check_resume_manifest(manifest: CampaignProfileResumeManifest, campaign_id: &str) -> (r: Result<
    CampaignProfileResumeManifest,
    String,
>)
    ensures
        match r {
            Ok(m) => resume_manifest_check(manifest, campaign_id@) is Ok && m == manifest,
            Err(e) => resume_manifest_check(manifest, campaign_id@) == Err::<(), Seq<char>>(e@),
        },
{
    if manifest.format != 1 || !chars_eq(&chars_of(manifest.campaign_id.as_str()), &chars_of(campaign_id)) {
        return Err(owned("Campaign profile resume metadata does not match this campaign."));
    }
    crate::state::validate_campaign_id(manifest.campaign_id.as_str())?;
    crate::paths::safe_campaign_target(manifest.target_path.as_str())?;
    let mut i: usize = 0;
    while i < manifest.dependency_names.len()
        invariant
            i <= manifest.dependency_names.len(),
            manifest.format == 1,
            manifest.campaign_id@ == campaign_id@,
            crate::state::campaign_id_ok(manifest.campaign_id@),
            campaign_target_outcome(manifest.target_path@) is Ok,
            forall|j: int| 0 <= j < i ==> dependency_name_ok(#[trigger] views(manifest.dependency_names@)[j]),
        decreases manifest.dependency_names.len() - i,
    {
        let name = chars_of(manifest.dependency_names[i].as_str());
        if name.len() == 0 || !ends_with_exec(&lower_exec(&name), &chars_of(".sc2mod")) {
            proof {
                assert(!dependency_name_ok(views(manifest.dependency_names@)[i as int]));
                assert(crate::state::campaign_id_ok(manifest.campaign_id@));
                assert(campaign_target_outcome(manifest.target_path@) is Ok);
                assert(resume_manifest_check(manifest, campaign_id@) == Err::<(), Seq<char>>(
                    "Campaign profile resume metadata has invalid dependencies."@,
                ));
            }
            return Err(owned("Campaign profile resume metadata has invalid dependencies."));
        }
        i = i + 1;
    }
    Ok(manifest)
}

// ----------------------------------------------------------------------
// Saves of a stored campaign profile
// ----------------------------------------------------------------------

/// `Path::extension` of a file name: the text after its last `.`, unless
/// that `.` is the name's first character.
pub open spec fn extension(name: Seq<char>) -> Option<Seq<char>> {
    let k = last_dot(name, name.len() as int);
    if k <= 0 {
        None
    } else {
        Some(name.skip(k + 1))
    }
}

/// Index of the last `.` before `end`, or -1.
pub open spec fn last_dot(s: Seq<char>, end: int) -> int
    decreases end,
{
    if end <= 0 || end > s.len() {
        -1
    } else if s[end - 1] == '.' {
        end - 1
    } else {
        last_dot(s, end - 1)
    }
}

/// A path whose last component has the extension `SC2Save` (ASCII
/// case-insensitively).
pub open spec fn is_save_file(path: Seq<char>) -> bool {
    let cs = components(path);
    cs.len() > 0 && match extension(cs.last()) {
        Some(e) => lower(e) == "sc2save"@,
        None => false,
    }
}

pub(crate) fn last_dot_exec(s: &[char]) -> (r: Option<usize>)
    ensures
        match r {
            Some(k) => k as int == last_dot(s@, s@.len() as int) && k < s@.len(),
            None => last_dot(s@, s@.len() as int) == -1,
        },
{
    let mut end = s.len();
    while end > 0
        invariant
            end <= s.len(),
            last_dot(s@, s@.len() as int) == last_dot(s@, end as int),
        decreases end,
    {
        if s[end - 1] == '.' {
            return Some(end - 1);
        }
        end = end - 1;
    }
    None
}

/// Whether a path names an `.SC2Save` file.
pub fn is_save_file_exec(path: &str) -> (r: bool)
    ensures
        r == is_save_file(path@),
{
    let cs = components_exec(&chars_of(path));
    if cs.len() == 0 {
        return false;
    }
    let name = &cs[cs.len() - 1];
    match last_dot_exec(name) {
        Some(k) => {
            if k == 0 {
                return false;
            }
            let n = name.len();
            let ext = crate::text::slice_chars(name, k + 1, n);
            proof {
                assert(ext@ =~= name@.skip(k as int + 1));
            }
            chars_eq(&lower_exec(&ext), &chars_of("sc2save"))
        },
        None => false,
    }
}

/// One file found under a stored profile's `Saves`, by its path relative to
/// the store, with its modification time and, when it could be read, what
/// its `save.details` names.
#[derive(Debug, Clone, PartialEq, Eq)]
pub struct StoredSave {
    pub relative_path: String,
    pub modified_at: u64,
    pub details: Option<SaveDetails>,
}

/// A save a player loads: an `.SC2Save` under one of the campaign folders.
pub open spec fn is_listed_save(s: StoredSave) -> bool {
    is_save_file(s.relative_path@) && in_campaign_save_folder(s.relative_path@)
}

/// `PathBuf`'s order on relative paths: component by component.
pub open spec fn parts_lt(a: Seq<Seq<char>>, b: Seq<Seq<char>>) -> bool
    decreases a.len(),
{
    if a.len() == 0 {
        b.len() > 0
    } else if b.len() == 0 {
        false
    } else if text_lt(a[0], b[0]) {
        true
    } else if a[0] == b[0] {
        parts_lt(a.drop_first(), b.drop_first())
    } else {
        false
    }
}

pub proof fn lemma_parts_lt_laws(a: Seq<Seq<char>>, b: Seq<Seq<char>>, c: Seq<Seq<char>>)
    ensures
        !parts_lt(a, a),
        parts_lt(a, b) && parts_lt(b, c) ==> parts_lt(a, c),
        parts_lt(a, b) ==> !parts_lt(b, a),
    decreases a.len(),
{
    if a.len() > 0 {
        lemma_text_lt_laws(a[0], a[0], a[0]);
        if b.len() > 0 && c.len() > 0 {
            lemma_text_lt_laws(a[0], b[0], c[0]);
            lemma_parts_lt_laws(a.drop_first(), b.drop_first(), c.drop_first());
        } else if b.len() > 0 {
            lemma_text_lt_laws(a[0], b[0], a[0]);
            lemma_parts_lt_laws(a.drop_first(), b.drop_first(), a.drop_first());
        } else {
            lemma_parts_lt_laws(a.drop_first(), a.drop_first(), a.drop_first());
        }
    }
}

pub(crate) fn parts_lt_exec(a: &Vec<Vec<char>>, b: &Vec<Vec<char>>) -> (r: bool)
    ensures
        r == parts_lt(
            a@.map_values(|l: Vec<char>| l@),
            b@.map_values(|l: Vec<char>| l@),
        ),
{
    let ghost av = a@.map_values(|l: Vec<char>| l@);
    let ghost bv = b@.map_values(|l: Vec<char>| l@);
    let mut i: usize = 0;
    proof {
        assert(av.skip(0) =~= av);
        assert(bv.skip(0) =~= bv);
    }
    while i < a.len() && i < b.len()
        invariant
            i <= a.len(),
            i <= b.len(),
            av == a@.map_values(|l: Vec<char>| l@),
            bv == b@.map_values(|l: Vec<char>| l@),
            parts_lt(av, bv) == parts_lt(av.skip(i as int), bv.skip(i as int)),
        decreases a.len() - i,
    {
        if text_lt_exec(&a[i], &b[i]) {
            return true;
        }
        if !chars_eq(&a[i], &b[i]) {
            return false;
        }
        proof {
            assert(av.skip(i as int).drop_first() =~= av.skip(i as int + 1));
            assert(bv.skip(i as int).drop_first() =~= bv.skip(i as int + 1));
        }
        i = i + 1;
    }
    i == a.len() && i < b.len()
}

/// Save `a` comes before save `b` in a store's listing: newer first, then
/// by path.
pub open spec fn save_before(a: StoredSave, b: StoredSave) -> bool {
    a.modified_at > b.modified_at || (a.modified_at == b.modified_at && parts_lt(
        components(a.relative_path@),
        components(b.relative_path@),
    ))
}

/// The save a stored campaign resumes from: the first, in listing order, of
/// the listed saves whose details name one of the dependencies.
pub open spec fn is_resume_save(saves: Seq<StoredSave>, names: Seq<Seq<char>>, i: int) -> bool {
    &&& 0 <= i < saves.len()
    &&& is_listed_save(saves[i])
    &&& saves[i].details matches Some(d) && details_match_dependencies(views(d.mods@), names)
}

pub open spec fn listed_count(saves: Seq<StoredSave>) -> nat
    decreases saves.len(),
{
    if saves.len() == 0 {
        0
    } else {
        listed_count(saves.drop_last()) + if is_listed_save(saves.last()) { 1nat } else { 0nat }
    }
}

fn listed_save_exec(s: &StoredSave) -> (r: bool)
    ensures
        r == is_listed_save(*s),
{
    let p = chars_of(s.relative_path.as_str());
    is_save_file_exec(s.relative_path.as_str()) && in_folder(&p)
}

fn in_folder(p: &[char]) -> (r: bool)
    ensures
        r == in_campaign_save_folder(p@),
{
    let l = lower_exec(p);
    crate::text::starts_with_exec(&l, &chars_of("saves/campaign/")) || crate::text::starts_with_exec(
        &l,
        &chars_of("saves/unsaved/campaign/"),
    )
}


pub proof fn lemma_parts_lt_total(a: Seq<Seq<char>>, b: Seq<Seq<char>>)
    ensures
        a == b || parts_lt(a, b) || parts_lt(b, a),
    decreases a.len(),
{
    if a.len() > 0 && b.len() > 0 {
        crate::order::lemma_text_lt_total(a[0], b[0]);
        if a[0] == b[0] {
            lemma_parts_lt_total(a.drop_first(), b.drop_first());
            if a.drop_first() == b.drop_first() {
                assert(a =~= seq![a[0]] + a.drop_first());
                assert(b =~= seq![b[0]] + b.drop_first());
            }
        }
    } else if a.len() == 0 && b.len() == 0 {
        assert(a =~= b);
    }
}

proof fn lemma_save_before_laws(a: StoredSave, b: StoredSave, c: StoredSave)
    ensures
        !save_before(a, a),
        save_before(a, b) && save_before(b, c) ==> save_before(a, c),
        save_before(a, b) ==> !save_before(b, a),
        save_before(a, c) ==> save_before(a, b) || save_before(b, c),
{
    let pa = components(a.relative_path@);
    let pb = components(b.relative_path@);
    let pc = components(c.relative_path@);
    lemma_parts_lt_laws(pa, pb, pc);
    lemma_parts_lt_laws(pb, pa, pc);
    lemma_parts_lt_laws(pa, pc, pb);
    lemma_parts_lt_laws(pb, pc, pa);
    lemma_parts_lt_total(pa, pb);
    lemma_parts_lt_total(pb, pc);
}

/// Save `i` is the one a stored campaign resumes from: the first, in the
/// listing order (newest first, then by path), of the listed saves whose
/// details name one of the dependencies.
pub open spec fn first_resume_save(saves: Seq<StoredSave>, names: Seq<Seq<char>>, i: int) -> bool {
    &&& is_resume_save(saves, names, i)
    &&& forall|j: int|
        #[trigger] is_resume_save(saves, names, j) && j != i ==> !save_before(saves[j], saves[i]) && (j < i
            ==> save_before(saves[i], saves[j]))
}

fn save_before_exec(a: &StoredSave, b: &StoredSave) -> (r: bool)
    ensures
        r == save_before(*a, *b),
{
    if a.modified_at != b.modified_at {
        return a.modified_at > b.modified_at;
    }
    let pa = components_exec(&chars_of(a.relative_path.as_str()));
    let pb = components_exec(&chars_of(b.relative_path.as_str()));
    proof {
        assert(pa@.map_values(|l: Vec<char>| l@) =~= components(a.relative_path@));
        assert(pb@.map_values(|l: Vec<char>| l@) =~= components(b.relative_path@));
    }
    parts_lt_exec(&pa, &pb)
}

fn is_resume_save_exec(saves: &Vec<StoredSave>, names: &[String], i: usize) -> (r: bool)
    requires
        i < saves@.len(),
    ensures
        r == is_resume_save(saves@, views(names@), i as int),
{
    if !listed_save_exec(&saves[i]) {
        return false;
    }
    match &saves[i].details {
        Some(d) => save_details_match_dependencies(d, names),
        None => false,
    }
}

/// The index of the save a stored campaign resumes from, if it has one.
fn find_resume_save(saves: &Vec<StoredSave>, names: &[String]) -> (r: Option<usize>)
    ensures
        match r {
            Some(i) => first_resume_save(saves@, views(names@), i as int),
            None => forall|j: int| !#[trigger] is_resume_save(saves@, views(names@), j),
        },
{
    let ghost nv = views(names@);
    let mut best: Option<usize> = None;
    let mut j: usize = 0;
    while j < saves.len()
        invariant
            j <= saves.len(),
            nv == views(names@),
            match best {
                Some(b) => b < j && is_resume_save(saves@, nv, b as int) && forall|k: int|
                    0 <= k < j && #[trigger] is_resume_save(saves@, nv, k) && k != b ==> !save_before(saves@[k], saves@[b as int])
                        && (k < b ==> save_before(saves@[b as int], saves@[k])),
                None => forall|k: int| 0 <= k < j ==> !#[trigger] is_resume_save(saves@, nv, k),
            },
        decreases saves.len() - j,
    {
        if is_resume_save_exec(saves, names, j) {
            match best {
                None => {
                    best = Some(j);
                },
                Some(b) => {
                    if save_before_exec(&saves[j], &saves[b]) {
                        proof {
                            assert forall|k: int|
                                0 <= k < j + 1 && #[trigger] is_resume_save(saves@, nv, k) && k != j implies !save_before(
                                saves@[k],
                                saves@[j as int],
                            ) && (k < j ==> save_before(saves@[j as int], saves@[k])) by {
                                lemma_save_before_laws(saves@[j as int], saves@[k], saves@[b as int]);
                                lemma_save_before_laws(saves@[k], saves@[j as int], saves@[b as int]);
                                lemma_save_before_laws(saves@[j as int], saves@[b as int], saves@[k]);
                                lemma_save_before_laws(saves@[k], saves@[b as int], saves@[j as int]);
                            }
                        }
                        best = Some(j);
                    } else {
                        proof {
                            lemma_save_before_laws(saves@[j as int], saves@[b as int], saves@[j as int]);
                            lemma_save_before_laws(saves@[b as int], saves@[j as int], saves@[b as int]);
                        }
                    }
                },
            }
        }
        j = j + 1;
    }
    proof {
        match best {
            Some(b) => {
                assert forall|k: int| #[trigger] is_resume_save(saves@, nv, k) && k != b implies !save_before(
                    saves@[k],
                    saves@[b as int],
                ) && (k < b ==> save_before(saves@[b as int], saves@[k])) by {
                    assert(0 <= k < saves@.len());
                }
            },
            None => {
                assert forall|k: int| !#[trigger] is_resume_save(saves@, nv, k) by {
                    if is_resume_save(saves@, nv, k) {
                        assert(0 <= k < saves@.len());
                    }
                }
            },
        }
    }
    best
}

fn count_listed(saves: &Vec<StoredSave>) -> (r: usize)
    ensures
        r == listed_count(saves@),
{
    let mut n: usize = 0;
    let mut i: usize = 0;
    while i < saves.len()
        invariant
            i <= saves.len(),
            n == listed_count(saves@.take(i as int)),
            n <= i,
        decreases saves.len() - i,
    {
        proof {
            assert(saves@.take(i as int + 1).drop_last() =~= saves@.take(i as int));
        }
        if listed_save_exec(&saves[i]) {
            n = n + 1;
        }
        i = i + 1;
    }
    proof {
        assert(saves@.take(saves@.len() as int) =~= saves@);
    }
    n
}

pub open spec fn first_map(d: Option<SaveDetails>) -> Option<Seq<char>> {
    match d {
        Some(x) => if x.maps@.len() > 0 { Some(x.maps@[0]@) } else { None },
        None => None,
    }
}

/// The manifest a store's resume trusts: a parsed `ccm-resume.json` that
/// passes `resume_manifest_check`.
pub open spec fn trusted_manifest(m: Option<CampaignProfileResumeManifest>, id: Seq<char>) -> Option<CampaignProfileResumeManifest> {
    match m {
        Some(x) => if resume_manifest_check(x, id) is Ok { Some(x) } else { None },
        None => None,
    }
}

pub open spec fn is_legacy(tm: Option<CampaignProfileResumeManifest>) -> bool {
    match tm {
        Some(x) => x.legacy_migrated,
        None => false,
    }
}

pub open spec fn manifest_names(tm: Option<CampaignProfileResumeManifest>) -> Seq<Seq<char>> {
    match tm {
        Some(x) => views(x.dependency_names@),
        None => Seq::empty(),
    }
}

pub open spec fn manifest_captured(tm: Option<CampaignProfileResumeManifest>) -> Option<u64> {
    match tm {
        Some(x) => Some(x.captured_at),
        None => None,
    }
}

pub open spec fn latest_time(s: Option<SavedCampaignSave>) -> Option<u64> {
    match s {
        Some(x) => Some(x.modified_at),
        None => None,
    }
}

/// What `inspect_saved_campaign_resumes_at` lists for one stored campaign.
pub open spec fn store_resume_fields(r: SavedCampaignResume, id: Seq<char>, saves: Seq<StoredSave>, m: Option<CampaignProfileResumeManifest>) -> bool {
    let tm = trusted_manifest(m, id);
    let names = manifest_names(tm);
    &&& r.campaign_id@ == id
    &&& r.save_count == listed_count(saves)
    &&& !r.legacy_migration_pending
    &&& (r.latest_save is Some <==> (names.len() > 0 && exists|i: int| is_resume_save(saves, names, i)))
    &&& (r.latest_save matches Some(s) ==> exists|i: int|
        first_resume_save(saves, names, i) && s.relative_path@ == saves[i].relative_path@ && s.modified_at
            == saves[i].modified_at && opt_text(s.map) == first_map(saves[i].details) && s.details_available)
    &&& r.unverified_save_count == (if r.latest_save is None { r.save_count } else { 0 })
    &&& r.last_played_at == (if is_legacy(tm) { manifest_captured(tm) } else { latest_time(r.latest_save) })
    &&& opt_text(r.last_played_source) == (if r.last_played_at is None {
        None
    } else if is_legacy(tm) {
        Some("legacy-ccm-snapshot"@)
    } else {
        Some("verified-save"@)
    })
}

fn clone_opt_first(v: &Vec<String>) -> (r: Option<String>)
    ensures
        opt_text(r) == (if v@.len() > 0 { Some(v@[0]@) } else { None::<Seq<char>> }),
{
    if v.len() > 0 {
        Some(owned(v[0].as_str()))
    } else {
        None
    }
}

/// The save a stored campaign resumes from, as listed.
fn resume_latest(saves: &Vec<StoredSave>, names: &Vec<String>) -> (r: Option<SavedCampaignSave>)
    ensures
        r is Some <==> exists|i: int| is_resume_save(saves@, views(names@), i),
        r matches Some(s) ==> exists|i: int|
            first_resume_save(saves@, views(names@), i) && s.relative_path@ == saves@[i].relative_path@ && s.modified_at
                == saves@[i].modified_at && opt_text(s.map) == first_map(saves@[i].details) && s.details_available,
{
    match find_resume_save(saves, names) {
        Some(i) => {
            let map = match &saves[i].details {
                Some(d) => clone_opt_first(&d.maps),
                None => None,
            };
            proof {
                assert(is_resume_save(saves@, views(names@), i as int));
            }
            Some(SavedCampaignSave {
                relative_path: owned(saves[i].relative_path.as_str()),
                modified_at: saves[i].modified_at,
                map,
                details_available: true,
            })
        },
        None => None,
    }
}

/// `inspect_saved_campaign_resumes_at`, for one directory of the profile
/// store: the campaign's resume, if the directory is a campaign with listed
/// saves or a resume manifest.
pub fn store_resume(
    campaign_id: &str,
    saves: &Vec<StoredSave>,
    manifest: Option<CampaignProfileResumeManifest>,
    manifest_file_exists: bool,
) -> (r: Option<SavedCampaignResume>)
    ensures
        r is Some <==> crate::state::campaign_id_ok(campaign_id@) && (listed_count(saves@) > 0 || manifest_file_exists),
        r matches Some(res) ==> store_resume_fields(res, campaign_id@, saves@, manifest),
{
    if crate::state::validate_campaign_id(campaign_id).is_err() {
        return None;
    }
    let ghost parsed = manifest;
    let trusted = match manifest {
        Some(m) => match check_resume_manifest(m, campaign_id) {
            Ok(m) => Some(m),
            Err(_) => None,
        },
        None => None,
    };
    let save_count = count_listed(saves);
    if save_count == 0 && !manifest_file_exists {
        return None;
    }
    let empty: Vec<String> = Vec::new();
    let names: &Vec<String> = match &trusted {
        Some(m) => &m.dependency_names,
        None => &empty,
    };
    let latest_save = if names.len() > 0 {
        resume_latest(saves, names)
    } else {
        None
    };
    proof {
        let tm = trusted_manifest(parsed, campaign_id@);
        assert(tm == trusted);
        let nv = match tm {
            Some(x) => views(x.dependency_names@),
            None => Seq::empty(),
        };
        assert(nv == views(names@));
    }
    let unverified_save_count = if latest_save.is_none() { save_count } else { 0 };
    let legacy = match &trusted {
        Some(m) => m.legacy_migrated,
        None => false,
    };
    let last_played_at = if legacy {
        match &trusted {
            Some(m) => Some(m.captured_at),
            None => None,
        }
    } else {
        match &latest_save {
            Some(s) => Some(s.modified_at),
            None => None,
        }
    };
    let last_played_source = match last_played_at {
        Some(_) => Some(if legacy { owned("legacy-ccm-snapshot") } else { owned("verified-save") }),
        None => None,
    };
    let res = SavedCampaignResume {
        campaign_id: owned(campaign_id),
        save_count,
        latest_save,
        unverified_save_count,
        last_played_at,
        last_played_source,
        legacy_migration_pending: false,
    };
    Some(res)
}

/// A resume found in the legacy (account-less) store: the snapshot counts
/// as played when CCM last archived it.
pub fn mark_legacy_resume(resume: SavedCampaignResume, captured_at: u64) -> (r: SavedCampaignResume)
    ensures
        r.campaign_id == resume.campaign_id,
        r.save_count == resume.save_count,
        r.latest_save == resume.latest_save,
        r.unverified_save_count == resume.unverified_save_count,
        r.last_played_at == Some(captured_at),
        opt_text(r.last_played_source) == Some("legacy-ccm-snapshot"@),
        r.legacy_migration_pending,
{
    SavedCampaignResume {
        last_played_at: Some(captured_at),
        last_played_source: Some(owned("legacy-ccm-snapshot")),
        legacy_migration_pending: true,
        ..resume
    }
}


// ----------------------------------------------------------------------
// Saves of the live profile
// ----------------------------------------------------------------------

/// How many saves are resume saves for the dependency names.
pub open spec fn resume_save_count(saves: Seq<StoredSave>, names: Seq<Seq<char>>) -> nat
    decreases saves.len(),
{
    if saves.len() == 0 {
        0
    } else {
        resume_save_count(saves.drop_last(), names) + if is_resume_save(saves, names, saves.len() - 1) {
            1nat
        } else {
            0nat
        }
    }
}

/// Save `i` is the newest resume save, the first one where several are
/// equally new (the live inventory's stable sort by time).
pub open spec fn newest_resume_save(saves: Seq<StoredSave>, names: Seq<Seq<char>>, i: int) -> bool {
    &&& is_resume_save(saves, names, i)
    &&& forall|j: int|
        #[trigger] is_resume_save(saves, names, j) ==> saves[j].modified_at <= saves[i].modified_at && (j < i
            ==> saves[j].modified_at < saves[i].modified_at)
}

proof fn lemma_resume_save_prefix(saves: Seq<StoredSave>, names: Seq<Seq<char>>, n: int, j: int)
    requires
        0 <= j < n <= saves.len(),
    ensures
        is_resume_save(saves.take(n), names, j) == is_resume_save(saves, names, j),
{
}

/// The resume of one managed campaign from the live profile's saves: with
/// `names` the lower-cased names of its dependencies and `saves` the files
/// under the live profile's `Saves` (relative to the profile).
pub fn live_resume(campaign_id: &str, names: &[String], saves: &Vec<StoredSave>) -> (r: Option<SavedCampaignResume>)
    ensures
        r is Some <==> names@.len() > 0,
        r matches Some(res) ==> {
            &&& res.campaign_id@ == campaign_id@
            &&& res.save_count == resume_save_count(saves@, views(names@))
            &&& (res.latest_save is Some <==> res.save_count > 0)
            &&& (res.latest_save matches Some(s) ==> exists|i: int|
                newest_resume_save(saves@, views(names@), i) && s.relative_path@ == saves@[i].relative_path@
                    && s.modified_at == saves@[i].modified_at && opt_text(s.map) == first_map(saves@[i].details)
                    && s.details_available)
            &&& res.last_played_at == latest_time(res.latest_save)
            &&& opt_text(res.last_played_source) == (if res.latest_save is Some {
                Some("verified-save"@)
            } else {
                None
            })
            &&& res.unverified_save_count == 0
            &&& !res.legacy_migration_pending
        },
{
    if names.len() == 0 {
        return None;
    }
    let ghost nv = views(names@);
    let mut count: usize = 0;
    let mut best: Option<usize> = None;
    let mut j: usize = 0;
    while j < saves.len()
        invariant
            j <= saves.len(),
            nv == views(names@),
            count == resume_save_count(saves@.take(j as int), nv),
            count <= j,
            (best is Some) <==> count > 0,
            match best {
                Some(b) => b < j && is_resume_save(saves@, nv, b as int) && forall|k: int|
                    0 <= k < j && #[trigger] is_resume_save(saves@, nv, k) ==> saves@[k].modified_at <= saves@[b as int].modified_at
                        && (k < b ==> saves@[k].modified_at < saves@[b as int].modified_at),
                None => forall|k: int| 0 <= k < j ==> !#[trigger] is_resume_save(saves@, nv, k),
            },
        decreases saves.len() - j,
    {
        let m = is_resume_save_exec(saves, names, j);
        proof {
            let t = saves@.take(j as int + 1);
            assert(t.drop_last() =~= saves@.take(j as int));
            lemma_resume_save_prefix(saves@, nv, j as int + 1, j as int);
            assert forall|k: int| 0 <= k < j implies is_resume_save(t.drop_last(), nv, k) == is_resume_save(t, nv, k) by {
                lemma_resume_save_prefix(saves@, nv, j as int, k);
                lemma_resume_save_prefix(saves@, nv, j as int + 1, k);
            }
            assert(resume_save_count(t.drop_last(), nv) == resume_save_count(saves@.take(j as int), nv));
            assert(is_resume_save(t, nv, j as int) == m);
        }
        if m {
            count = count + 1;
            match best {
                None => {
                    best = Some(j);
                },
                Some(b) => {
                    if saves[j].modified_at > saves[b].modified_at {
                        best = Some(j);
                    }
                },
            }
        }
        j = j + 1;
    }
    proof {
        assert(saves@.take(saves@.len() as int) =~= saves@);
    }
    let latest_save = match best {
        Some(i) => {
            let map = match &saves[i].details {
                Some(d) => clone_opt_first(&d.maps),
                None => None,
            };
            proof {
                assert(newest_resume_save(saves@, nv, i as int));
            }
            Some(SavedCampaignSave {
                relative_path: owned(saves[i].relative_path.as_str()),
                modified_at: saves[i].modified_at,
                map,
                details_available: true,
            })
        },
        None => None,
    };
    let last_played_at = match &latest_save {
        Some(s) => Some(s.modified_at),
        None => None,
    };
    let last_played_source = match &latest_save {
        Some(_) => Some(owned("verified-save")),
        None => None,
    };
    Some(SavedCampaignResume {
        campaign_id: owned(campaign_id),
        save_count: count,
        latest_save,
        unverified_save_count: 0,
        last_played_at,
        last_played_source,
        legacy_migration_pending: false,
    })
}

} // verus!
