//! Which files of a StarCraft II account profile belong to a campaign slot:
//! its banks, its progress node, and the saves whose names or `save.details`
//! tie them to the slot and to the current mod's dependencies.

use vstd::prelude::*;
use crate::paths::{
    campaign_target_hots, campaign_target_lotv, campaign_target_nco, campaign_target_wol, components,
    components_exec, copy_components, is_campaign_target, join_components, join_components_exec,
    join_path, join_path_exec, slashed, slashed_exec, starts_with_components,
};
use crate::text::{
    chars_eq, chars_of, concat_chars, contains, contains_exec, ends_with, ends_with_exec, join_strings,
    join_with, lower, lower_exec, owned, starts_with, starts_with_exec, string_from_chars,
    string_list, views,
};

verus! {

// ----------------------------------------------------------------------
// The slot's profile files
// ----------------------------------------------------------------------

/// The account-profile files that make up one campaign slot.
#[derive(Debug, Clone, PartialEq, Eq)]
pub struct CampaignProfileSpec {
    /// File names under the profile's `Banks` directory.
    pub banks: Vec<String>,
    /// The word that slot-named saves contain (`liberty`, `swarm`, ...).
    pub save_marker: String,
    /// The `id` attributes of the slot's `CampaignProgress.xml` node.
    pub progress_ids: Vec<String>,
}

impl CampaignProfileSpec {
    pub open spec fn banks_view(&self) -> Seq<Seq<char>> {
        views(self.banks@)
    }

    pub open spec fn ids_view(&self) -> Seq<Seq<char>> {
        views(self.progress_ids@)
    }
}

pub open spec fn slot_banks(target: Seq<char>) -> Seq<Seq<char>> {
    if target == campaign_target_wol() {
        seq!["WCampaign.SC2Bank"@, "WArchive.SC2Bank"@, "WArmy.SC2Bank"@, "WStory.SC2Bank"@, "WCampaignStats.SC2Bank"@]
    } else if target == campaign_target_hots() {
        seq!["ZCampaign.SC2Bank"@, "ZArchive.SC2Bank"@, "ZArmy.SC2Bank"@, "ZStory.SC2Bank"@, "ZCampaignStats.SC2Bank"@]
    } else if target == campaign_target_lotv() {
        seq!["PCampaign.SC2Bank"@, "PArchive.SC2Bank"@, "PArmy.SC2Bank"@, "PStory.SC2Bank"@, "PCampaignStats.SC2Bank"@]
    } else {
        seq!["NCampaign.SC2Bank"@, "NArchive.SC2Bank"@, "NArmy.SC2Bank"@, "NStory.SC2Bank"@, "NCampaignStats.SC2Bank"@]
    }
}

pub open spec fn slot_marker(target: Seq<char>) -> Seq<char> {
    if target == campaign_target_wol() {
        "liberty"@
    } else if target == campaign_target_hots() {
        "swarm"@
    } else if target == campaign_target_lotv() {
        "void"@
    } else {
        "nova"@
    }
}

pub open spec fn slot_progress_ids(target: Seq<char>) -> Seq<Seq<char>> {
    if target == campaign_target_wol() {
        seq!["WingsOfLiberty"@, "Liberty"@]
    } else if target == campaign_target_hots() {
        seq!["HeartOfTheSwarm"@, "Swarm"@]
    } else if target == campaign_target_lotv() {
        seq!["LegacyOfTheVoid"@, "Void"@]
    } else {
        seq!["NovaCovertOps"@, "Nova"@]
    }
}

/// Whether `spec` is the profile description of campaign branch `target`.
pub open spec fn describes_slot(spec: CampaignProfileSpec, target: Seq<char>) -> bool {
    &&& spec.banks_view() == slot_banks(target)
    &&& spec.save_marker@ == slot_marker(target)
    &&& spec.ids_view() == slot_progress_ids(target)
}

fn text_is(a: &str, b: &str) -> (r: bool)
    ensures
        r == (a@ == b@),
{
    chars_eq(&chars_of(a), &chars_of(b))
}

fn make_spec(banks: &[&str], marker: &str, ids: &[&str]) -> (r: CampaignProfileSpec)
    ensures
        r.banks_view() == banks@.map_values(|s: &str| s@),
        r.save_marker@ == marker@,
        r.ids_view() == ids@.map_values(|s: &str| s@),
{
    let spec = CampaignProfileSpec { banks: string_list(banks), save_marker: owned(marker), progress_ids: string_list(ids) };
    proof {
        assert(spec.banks_view() =~= banks@.map_values(|s: &str| s@));
        assert(spec.ids_view() =~= ids@.map_values(|s: &str| s@));
    }
    spec
}

/// `campaign_profile_spec`: the profile files of a campaign branch, for the
/// four branches CCM manages.
pub fn campaign_profile_spec(target: &str) -> (r: Option<CampaignProfileSpec>)
    ensures
        r is Some <==> is_campaign_target(target@),
        r matches Some(spec) ==> describes_slot(spec, target@),
{
    let (banks, marker, ids): ([&str; 5], &str, [&str; 2]) = if text_is(target, "Maps/Campaign") {
        (["WCampaign.SC2Bank", "WArchive.SC2Bank", "WArmy.SC2Bank", "WStory.SC2Bank", "WCampaignStats.SC2Bank"], "liberty", [
            "WingsOfLiberty",
            "Liberty",
        ])
    } else if text_is(target, "Maps/Campaign/swarm") {
        (["ZCampaign.SC2Bank", "ZArchive.SC2Bank", "ZArmy.SC2Bank", "ZStory.SC2Bank", "ZCampaignStats.SC2Bank"], "swarm", [
            "HeartOfTheSwarm",
            "Swarm",
        ])
    } else if text_is(target, "Maps/Campaign/void") {
        (["PCampaign.SC2Bank", "PArchive.SC2Bank", "PArmy.SC2Bank", "PStory.SC2Bank", "PCampaignStats.SC2Bank"], "void", [
            "LegacyOfTheVoid",
            "Void",
        ])
    } else if text_is(target, "Maps/Campaign/nova") {
        (["NCampaign.SC2Bank", "NArchive.SC2Bank", "NArmy.SC2Bank", "NStory.SC2Bank", "NCampaignStats.SC2Bank"], "nova", [
            "NovaCovertOps",
            "Nova",
        ])
    } else {
        return None;
    };
    let spec = make_spec(&banks, marker, &ids);
    proof {
        assert(spec.banks_view() =~= slot_banks(target@));
        assert(spec.ids_view() =~= slot_progress_ids(target@));
    }
    Some(spec)
}

// ----------------------------------------------------------------------
// Saves that belong to the slot
// ----------------------------------------------------------------------

/// A slot-named save: its lower-cased name contains the slot's marker. LotV
/// prologue and epilogue saves are campaigns of their own and never match
/// the `void` marker.
pub open spec fn save_filename_matches_spec(name: Seq<char>, marker: Seq<char>) -> bool {
    let n = lower(name);
    let m = lower(marker);
    contains(n, m) && !(m == "void"@ && (contains(n, "prologue"@) || contains(n, "epilogue"@)))
}

/// Whether a save's file name carries the slot's save marker.
pub fn save_filename_matches(name: &str, spec: &CampaignProfileSpec) -> (r: bool)
    ensures
        r == save_filename_matches_spec(name@, spec.save_marker@),
{
    let n = lower_exec(&chars_of(name));
    let m = lower_exec(&chars_of(spec.save_marker.as_str()));
    if !contains_exec(&n, &m) {
        return false;
    }
    if chars_eq(&m, &chars_of("void")) && (contains_exec(&n, &chars_of("prologue")) || contains_exec(
        &n,
        &chars_of("epilogue"),
    )) {
        return false;
    }
    true
}

/// The components of a path, with a leading separator as a root component
/// of its own; `\` separates as `/` does, as on Windows.
pub open spec fn path_parts(s: Seq<char>) -> Seq<Seq<char>> {
    slash_parts(slashed(s))
}

/// The parts of a path written with `/` only: the root, then the components.
pub open spec fn slash_parts(s: Seq<char>) -> Seq<Seq<char>> {
    if s.len() > 0 && s[0] == '/' {
        seq![seq!['/']] + components(s)
    } else {
        components(s)
    }
}

/// `path.strip_prefix(root)` rendered with `/`, if `root` is a prefix of
/// `path` component by component.
pub open spec fn relative_under(root: Seq<char>, path: Seq<char>) -> Option<Seq<char>> {
    let r = path_parts(root);
    let p = path_parts(path);
    if starts_with_components(p, r) {
        Some(join_components(p.skip(r.len() as int)))
    } else {
        None
    }
}

pub open spec fn part_views(v: Seq<Vec<char>>) -> Seq<Seq<char>> {
    v.map_values(|l: Vec<char>| l@)
}

pub(crate) fn path_parts_exec(s: &[char]) -> (r: Vec<Vec<char>>)
    ensures
        part_views(r@) == path_parts(s@),
{
    let t = slashed_exec(s);
    slash_parts_exec(&t)
}

fn slash_parts_exec(s: &[char]) -> (r: Vec<Vec<char>>)
    ensures
        part_views(r@) == slash_parts(s@),
{
    let cs = components_exec(s);
    if s.len() > 0 && s[0] == '/' {
        let mut r: Vec<Vec<char>> = Vec::new();
        r.push(chars_of("/"));
        let rest = copy_components(&cs, 0);
        let mut i: usize = 0;
        proof {
            assert(part_views(cs@).skip(0) =~= part_views(cs@));
            reveal_strlit("/");
            assert(r@[0]@ =~= seq!['/']);
            assert(part_views(r@) =~= seq![seq!['/']] + part_views(rest@).take(0));
        }
        while i < rest.len()
            invariant
                i <= rest.len(),
                part_views(rest@) == components(s@),
                part_views(r@) == seq![seq!['/']] + part_views(rest@).take(i as int),
            decreases rest.len() - i,
        {
            let c = concat_chars(&rest[i], &[]);
            proof {
                assert(c@ =~= rest@[i as int]@);
                assert(part_views(r@.push(c)) =~= part_views(r@).push(c@));
                assert(part_views(rest@).take(i as int + 1) =~= part_views(rest@).take(i as int).push(c@));
            }
            r.push(c);
            i = i + 1;
        }
        proof {
            assert(part_views(rest@).take(rest@.len() as int) =~= part_views(rest@));
        }
        r
    } else {
        cs
    }
}

fn relative_under_exec(root: &[char], path: &[char]) -> (r: Option<Vec<char>>)
    ensures
        match r {
            Some(v) => relative_under(root@, path@) == Some(v@),
            None => relative_under(root@, path@) is None,
        },
{
    let rp = path_parts_exec(root);
    let pp = path_parts_exec(path);
    let ghost rv = part_views(rp@);
    let ghost pv = part_views(pp@);
    if rp.len() > pp.len() {
        return None;
    }
    let mut i: usize = 0;
    while i < rp.len()
        invariant
            i <= rp.len() <= pp.len(),
            rv == part_views(rp@),
            pv == part_views(pp@),
            rv == path_parts(root@),
            pv == path_parts(path@),
            pv.take(i as int) == rv.take(i as int),
        decreases rp.len() - i,
    {
        if !chars_eq(&pp[i], &rp[i]) {
            proof {
                assert(pv.take(rv.len() as int)[i as int] == pv[i as int]);
                assert(pv.take(rv.len() as int)[i as int] != rv[i as int]);
                assert(!starts_with_components(pv, rv));
                assert(relative_under(root@, path@) is None);
            }
            return None;
        }
        proof {
            assert(pv.take(i as int + 1) =~= pv.take(i as int).push(pv[i as int]));
            assert(rv.take(i as int + 1) =~= rv.take(i as int).push(rv[i as int]));
        }
        i = i + 1;
    }
    proof {
        assert(rv.take(rv.len() as int) =~= rv);
    }
    let rest = copy_components(&pp, rp.len());
    Some(join_components_exec(&rest))
}

/// `path.strip_prefix(root)` rendered with `/`.
pub fn relative_profile_path(root: &str, path: &str) -> (r: Option<String>)
    ensures
        match r {
            Some(v) => relative_under(root@, path@) == Some(v@),
            None => relative_under(root@, path@) is None,
        },
{
    match relative_under_exec(&chars_of(root), &chars_of(path)) {
        Some(v) => Some(string_from_chars(&v)),
        None => None,
    }
}

/// A save under `Saves/Campaign/` or `Saves/Unsaved/Campaign/` of the profile
/// (ASCII case-insensitively): one a player loads, as opposed to the
/// slot-state archives at the root of `Saves`.
pub open spec fn is_loadable_campaign_save(profile_root: Seq<char>, save_path: Seq<char>) -> bool {
    match relative_under(profile_root, save_path) {
        Some(rel) => in_campaign_save_folder(rel),
        None => false,
    }
}

/// A profile-relative path inside one of the campaign save folders.
pub open spec fn in_campaign_save_folder(relative: Seq<char>) -> bool {
    starts_with(lower(relative), "saves/campaign/"@) || starts_with(lower(relative), "saves/unsaved/campaign/"@)
}

fn in_campaign_save_folder_exec(relative: &[char]) -> (r: bool)
    ensures
        r == in_campaign_save_folder(relative@),
{
    let l = lower_exec(relative);
    starts_with_exec(&l, &chars_of("saves/campaign/")) || starts_with_exec(&l, &chars_of("saves/unsaved/campaign/"))
}

/// Whether a save lies in the profile's campaign save folders, where the
/// game offers it for loading.
pub fn is_user_loadable_campaign_save(profile_root: &str, save_path: &str) -> (r: bool)
    ensures
        r == is_loadable_campaign_save(profile_root@, save_path@),
{
    match relative_under_exec(&chars_of(profile_root), &chars_of(save_path)) {
        Some(rel) => in_campaign_save_folder_exec(&rel),
        None => false,
    }
}

pub open spec fn bank_path(root: Seq<char>, bank: Seq<char>) -> Seq<char> {
    join_path(join_path(root, "Banks"@), bank)
}

/// `campaign_slot_bank_paths`: `root/Banks/<bank>` for each of the slot's banks.
pub fn campaign_slot_bank_paths(root: &str, spec: &CampaignProfileSpec) -> (r: Vec<String>)
    ensures
        r@.len() == spec.banks@.len(),
        forall|i: int| 0 <= i < r@.len() ==> #[trigger] r@[i]@ == bank_path(root@, spec.banks@[i]@),
{
    let banks_dir = join_path_exec(&chars_of(root), &chars_of("Banks"));
    let mut r: Vec<String> = Vec::new();
    let mut i: usize = 0;
    while i < spec.banks.len()
        invariant
            i <= spec.banks.len(),
            r@.len() == i,
            banks_dir@ == join_path(root@, "Banks"@),
            forall|j: int| 0 <= j < i ==> #[trigger] r@[j]@ == bank_path(root@, spec.banks@[j]@),
        decreases spec.banks.len() - i,
    {
        r.push(string_from_chars(&join_path_exec(&banks_dir, &chars_of(spec.banks[i].as_str()))));
        i = i + 1;
    }
    r
}

// ----------------------------------------------------------------------
// The slot's progress node
// ----------------------------------------------------------------------

pub open spec fn names_progress_id(line: Seq<char>, id: Seq<char>) -> bool {
    contains(line, "id=\""@ + id + "\""@) || contains(line, "id='"@ + id + "'"@)
}

/// A line is the slot's progress node when it carries one of the slot's ids.
pub open spec fn is_progress_node(line: Seq<char>, ids: Seq<Seq<char>>) -> bool {
    exists|i: int| 0 <= i < ids.len() && names_progress_id(line, #[trigger] ids[i])
}

fn names_progress_id_exec(line: &[char], id: &[char]) -> (r: bool)
    ensures
        r == names_progress_id(line@, id@),
{
    let double = concat_chars(&concat_chars(&chars_of("id=\""), id), &chars_of("\""));
    let single = concat_chars(&concat_chars(&chars_of("id='"), id), &chars_of("'"));
    contains_exec(line, &double) || contains_exec(line, &single)
}

pub(crate) fn is_progress_node_exec(line: &[char], ids: &Vec<String>) -> (r: bool)
    ensures
        r == is_progress_node(line@, views(ids@)),
{
    let mut i: usize = 0;
    while i < ids.len()
        invariant
            i <= ids.len(),
            forall|j: int| 0 <= j < i ==> !names_progress_id(line@, #[trigger] views(ids@)[j]),
        decreases ids.len() - i,
    {
        if names_progress_id_exec(line, &chars_of(ids[i].as_str())) {
            proof {
                assert(views(ids@)[i as int] == ids@[i as int]@);
            }
            return true;
        }
        i = i + 1;
    }
    false
}

/// Whether a `CampaignProgress.xml` line is one of the slot's progress nodes.
pub fn progress_node_matches(line: &str, spec: &CampaignProfileSpec) -> (r: bool)
    ensures
        r == is_progress_node(line@, spec.ids_view()),
{
    is_progress_node_exec(&chars_of(line), &spec.progress_ids)
}

// ----------------------------------------------------------------------
// save.details
// ----------------------------------------------------------------------

/// What a save's `save.details` names: maps, mods and campaigns.
#[derive(Debug, Clone, PartialEq, Eq)]
pub struct SaveDetails {
    pub maps: Vec<String>,
    pub mods: Vec<String>,
    pub campaigns: Vec<String>,
}

/// The largest `save.details` CCM reads.
pub const MAX_SAVE_DETAILS_BYTES: u64 = 16777216;

/// Refuses a `save.details` larger than CCM inspects.
pub fn check_save_details_size(size: u64) -> (r: Result<(), String>)
    ensures
        r is Ok <==> size <= MAX_SAVE_DETAILS_BYTES,
        r matches Err(e) ==> e@ == "save.details is larger than the safe inspection limit."@,
{
    if size > MAX_SAVE_DETAILS_BYTES {
        return Err(owned("save.details is larger than the safe inspection limit."));
    }
    Ok(())
}

/// A character that may appear in a path read out of `save.details`.
pub open spec fn is_path_char(c: char) -> bool {
    crate::text::is_ascii_alnum(c) || c == '/' || c == '_' || c == '-' || c == '.' || c == ' '
}

pub open spec fn all_path_chars(s: Seq<char>) -> bool {
    forall|i: int| 0 <= i < s.len() ==> is_path_char(#[trigger] s[i])
}

/// Each stretch of `text` from an occurrence of `marker` (at or after
/// `offset`) to the end of the next `suffix` after it, in order, keeping
/// those made of path characters only; the scan resumes after each stretch.
pub open spec fn path_candidates(text: Seq<char>, marker: Seq<char>, suffix: Seq<char>, offset: int) -> Seq<Seq<char>>
    decreases text.len() + 1 - offset,
{
    if offset < 0 || offset > text.len() || suffix.len() == 0 {
        Seq::empty()
    } else {
        let start = crate::text::find_from(text, marker, offset);
        if start < 0 {
            Seq::empty()
        } else {
            let e = crate::text::find_from(text, suffix, start);
            if e < 0 {
                Seq::empty()
            } else {
                proof {
                    crate::text::lemma_find_from_bounds(text, marker, offset);
                    crate::text::lemma_find_from_bounds(text, suffix, start);
                }
                let end = e + suffix.len();
                let c = text.subrange(start, end);
                (if all_path_chars(c) { seq![c] } else { Seq::empty() }) + path_candidates(text, marker, suffix, end)
            }
        }
    }
}

/// The items of `xs` with later repeats dropped.
pub open spec fn distinct_in_order(xs: Seq<Seq<char>>) -> Seq<Seq<char>>
    decreases xs.len(),
{
    if xs.len() == 0 {
        Seq::empty()
    } else {
        let d = distinct_in_order(xs.drop_last());
        if d.contains(xs.last()) {
            d
        } else {
            d.push(xs.last())
        }
    }
}

pub open spec fn text_paths(text: Seq<char>, marker: Seq<char>, suffix: Seq<char>) -> Seq<Seq<char>> {
    distinct_in_order(path_candidates(text, marker, suffix, 0))
}

fn all_path_chars_exec(s: &[char]) -> (r: bool)
    ensures
        r == all_path_chars(s@),
{
    let mut i: usize = 0;
    while i < s.len()
        invariant
            i <= s.len(),
            forall|j: int| 0 <= j < i ==> is_path_char(#[trigger] s@[j]),
        decreases s.len() - i,
    {
        let c = s[i];
        if !(crate::text::is_ascii_alnum_exec(c) || c == '/' || c == '_' || c == '-' || c == '.' || c == ' ') {
            return false;
        }
        i = i + 1;
    }
    true
}

fn list_has(xs: &Vec<String>, c: &[char]) -> (r: bool)
    ensures
        r == views(xs@).contains(c@),
{
    let mut i: usize = 0;
    while i < xs.len()
        invariant
            i <= xs.len(),
            forall|j: int| 0 <= j < i ==> #[trigger] views(xs@)[j] != c@,
        decreases xs.len() - i,
    {
        if chars_eq(&chars_of(xs[i].as_str()), c) {
            proof {
                assert(views(xs@)[i as int] == c@);
            }
            return true;
        }
        i = i + 1;
    }
    false
}

/// The distinct paths of `text` that start with `marker` and end with
/// `suffix` (see `path_candidates`). An empty `suffix` would never move the
/// scan forward, so it is not accepted.
pub fn extract_text_paths(text: &str, marker: &str, suffix: &str) -> (r: Vec<String>)
    requires
        suffix@.len() > 0,
    ensures
        views(r@) == text_paths(text@, marker@, suffix@),
{
    let t = chars_of(text);
    let m = chars_of(marker);
    let s = chars_of(suffix);
    let mut paths: Vec<String> = Vec::new();
    let mut offset: usize = 0;
    let ghost mut done: Seq<Seq<char>> = Seq::empty();
    loop
        invariant
            offset <= t@.len(),
            t@ == text@,
            m@ == marker@,
            s@ == suffix@,
            s@.len() > 0,
            path_candidates(t@, m@, s@, 0) == done + path_candidates(t@, m@, s@, offset as int),
            views(paths@) == distinct_in_order(done),
        decreases t@.len() + 1 - offset,
    {
        let start = match crate::text::find_from_exec(&t, &m, offset) {
            Some(k) => k,
            None => {
                proof {
                    assert(done + Seq::<Seq<char>>::empty() =~= done);
                }
                return paths;
            },
        };
        let e = match crate::text::find_from_exec(&t, &s, start) {
            Some(k) => k,
            None => {
                proof {
                    assert(done + Seq::<Seq<char>>::empty() =~= done);
                }
                return paths;
            },
        };
        proof {
            crate::text::lemma_find_from_bounds(t@, m@, offset as int);
            crate::text::lemma_find_from_bounds(t@, s@, start as int);
        }
        let tl = t.len();
        assert(e + s@.len() <= tl);
        let end = e + s.len();
        let c = crate::text::slice_chars(&t, start, end);
        let ghost piece: Seq<Seq<char>> = if all_path_chars(c@) { seq![c@] } else { Seq::empty() };
        if all_path_chars_exec(&c) {
            if !list_has(&paths, &c) {
                let item = string_from_chars(&c);
                proof {
                    assert(views(paths@.push(item)) =~= views(paths@).push(c@));
                }
                paths.push(item);
            }
            proof {
                let nd = done + piece;
                assert(nd.drop_last() =~= done);
                assert(nd.last() == c@);
            }
        } else {
            proof {
                assert(done + piece =~= done);
            }
        }
        proof {
            assert(path_candidates(t@, m@, s@, offset as int) == piece + path_candidates(t@, m@, s@, end as int));
            assert(done + (piece + path_candidates(t@, m@, s@, end as int)) =~= (done + piece) + path_candidates(t@, m@, s@, end as int));
            done = done + piece;
        }
        offset = end;
    }
}

/// What `String::from_utf8_lossy` makes of a byte sequence.
pub uninterp spec fn utf8_lossy(bytes: Seq<u8>) -> Seq<char>;

/// `String::from_utf8_lossy`: the text of the bytes, each invalid stretch
/// replaced by U+FFFD; valid UTF-8 decodes unchanged.
#[verifier::external_body]
fn decode_utf8_lossy(bytes: &[u8]) -> (r: String)
    ensures
        r@ == utf8_lossy(bytes@),
        vstd::utf8::valid_utf8(bytes@) ==> r@ == vstd::utf8::decode_utf8(bytes@),
{
    String::from_utf8_lossy(bytes).into_owned()
}

/// `extract_archive_paths`: the paths of `save.details` (read as lossy
/// UTF-8) between `marker` and `suffix`.
pub fn extract_archive_paths(bytes: &[u8], marker: &str, suffix: &str) -> (r: Vec<String>)
    requires
        suffix@.len() > 0,
    ensures
        views(r@) == text_paths(utf8_lossy(bytes@), marker@, suffix@),
        vstd::utf8::valid_utf8(bytes@) ==> views(r@) == text_paths(vstd::utf8::decode_utf8(bytes@), marker@, suffix@),
{
    let text = decode_utf8_lossy(bytes);
    extract_text_paths(text.as_str(), marker, suffix)
}

pub open spec fn details_of_text(text: Seq<char>) -> (Seq<Seq<char>>, Seq<Seq<char>>, Seq<Seq<char>>) {
    (
        text_paths(text, "Campaign/"@, ".SC2Map"@),
        text_paths(text, "Mods/"@, ".SC2Mod"@),
        text_paths(text, "Campaigns/"@, ".SC2Campaign"@),
    )
}

impl SaveDetails {
    pub open spec fn view(&self) -> (Seq<Seq<char>>, Seq<Seq<char>>, Seq<Seq<char>>) {
        (views(self.maps@), views(self.mods@), views(self.campaigns@))
    }
}

/// The maps, mods and campaigns that the text of a `save.details` names.
pub fn save_details_from_text(text: &str) -> (r: SaveDetails)
    ensures
        r.view() == details_of_text(text@),
{
    proof {
        reveal_strlit(".SC2Map");
        reveal_strlit(".SC2Mod");
        reveal_strlit(".SC2Campaign");
    }
    SaveDetails {
        maps: extract_text_paths(text, "Campaign/", ".SC2Map"),
        mods: extract_text_paths(text, "Mods/", ".SC2Mod"),
        campaigns: extract_text_paths(text, "Campaigns/", ".SC2Campaign"),
    }
}

/// The `SaveDetails` of the raw bytes of a `save.details` member.
pub fn save_details_from_bytes(bytes: &[u8]) -> (r: SaveDetails)
    ensures
        r.view() == details_of_text(utf8_lossy(bytes@)),
        vstd::utf8::valid_utf8(bytes@) ==> r.view() == details_of_text(vstd::utf8::decode_utf8(bytes@)),
{
    let text = decode_utf8_lossy(bytes);
    save_details_from_text(text.as_str())
}

/// A save belongs to the slot when one of its maps or campaigns lies under
/// `campaign/<marker>` or `campaigns/<marker>` (ASCII case-insensitively).
pub open spec fn names_slot_path(value: Seq<char>, marker: Seq<char>) -> bool {
    contains(lower(value), "campaign/"@ + lower(marker)) || contains(lower(value), "campaigns/"@ + lower(marker))
}

pub open spec fn details_match_campaign(maps: Seq<Seq<char>>, campaigns: Seq<Seq<char>>, marker: Seq<char>) -> bool {
    (exists|i: int| 0 <= i < maps.len() && names_slot_path(#[trigger] maps[i], marker))
        || (exists|i: int| 0 <= i < campaigns.len() && names_slot_path(#[trigger] campaigns[i], marker))
}

fn any_names_slot_path(values: &Vec<String>, marker: &[char]) -> (r: bool)
    ensures
        r == exists|i: int| 0 <= i < values@.len() && names_slot_path(#[trigger] views(values@)[i], marker@),
{
    let m = lower_exec(marker);
    let p1 = concat_chars(&chars_of("campaign/"), &m);
    let p2 = concat_chars(&chars_of("campaigns/"), &m);
    let mut i: usize = 0;
    while i < values.len()
        invariant
            i <= values.len(),
            m@ == lower(marker@),
            p1@ == "campaign/"@ + lower(marker@),
            p2@ == "campaigns/"@ + lower(marker@),
            forall|j: int| 0 <= j < i ==> !names_slot_path(#[trigger] views(values@)[j], marker@),
        decreases values.len() - i,
    {
        let v = lower_exec(&chars_of(values[i].as_str()));
        if contains_exec(&v, &p1) || contains_exec(&v, &p2) {
            proof {
                assert(names_slot_path(views(values@)[i as int], marker@));
            }
            return true;
        }
        i = i + 1;
    }
    false
}

/// Whether a save's details name the slot's campaign.
pub fn save_details_match_campaign(details: &SaveDetails, spec: &CampaignProfileSpec) -> (r: bool)
    ensures
        r == details_match_campaign(details.view().0, details.view().2, spec.save_marker@),
{
    let marker = chars_of(spec.save_marker.as_str());
    any_names_slot_path(&details.maps, &marker) || any_names_slot_path(&details.campaigns, &marker)
}

/// One of the save's mods ends with (ASCII case-insensitively) one of the
/// current campaign's lower-cased dependency names.
pub open spec fn details_match_dependencies(mods: Seq<Seq<char>>, names: Seq<Seq<char>>) -> bool {
    exists|i: int, j: int| 0 <= i < mods.len() && 0 <= j < names.len() && ends_with(lower(#[trigger] mods[i]), #[trigger] names[j])
}

/// Whether a save's details name one of the given dependency mods.
pub fn save_details_match_dependencies(details: &SaveDetails, dependency_names: &[String]) -> (r: bool)
    ensures
        r == details_match_dependencies(details.view().1, views(dependency_names@)),
{
    let ghost mv = views(details.mods@);
    let ghost nv = views(dependency_names@);
    let mut i: usize = 0;
    while i < details.mods.len()
        invariant
            i <= details.mods.len(),
            mv == views(details.mods@),
            nv == views(dependency_names@),
            forall|a: int, b: int| 0 <= a < i && 0 <= b < nv.len() ==> !ends_with(lower(#[trigger] mv[a]), #[trigger] nv[b]),
        decreases details.mods.len() - i,
    {
        let normalized = lower_exec(&chars_of(details.mods[i].as_str()));
        let mut j: usize = 0;
        while j < dependency_names.len()
            invariant
                i < details.mods.len(),
                j <= dependency_names.len(),
                mv == views(details.mods@),
                nv == views(dependency_names@),
                normalized@ == lower(mv[i as int]),
                forall|b: int| 0 <= b < j ==> !ends_with(lower(mv[i as int]), #[trigger] nv[b]),
            decreases dependency_names.len() - j,
        {
            if ends_with_exec(&normalized, &chars_of(dependency_names[j].as_str())) {
                proof {
                    assert(ends_with(lower(mv[i as int]), nv[j as int]));
                }
                return true;
            }
            j = j + 1;
        }
        i = i + 1;
    }
    false
}

/// The parts of a save's one-line description: its first map, its mods, its
/// first campaign, each where there is one.
pub open spec fn summary_parts(maps: Seq<Seq<char>>, mods: Seq<Seq<char>>, campaigns: Seq<Seq<char>>) -> Seq<Seq<char>> {
    (if maps.len() > 0 { seq!["map: "@ + maps[0]] } else { Seq::empty() })
        + (if mods.len() > 0 { seq!["mods: "@ + join_with(mods, ", "@)] } else { Seq::empty() })
        + (if campaigns.len() > 0 { seq!["campaign: "@ + campaigns[0]] } else { Seq::empty() })
}

pub open spec fn details_summary(maps: Seq<Seq<char>>, mods: Seq<Seq<char>>, campaigns: Seq<Seq<char>>) -> Option<Seq<char>> {
    let parts = summary_parts(maps, mods, campaigns);
    if parts.len() == 0 {
        None
    } else {
        Some(join_with(parts, " · "@))
    }
}

fn prefixed(prefix: &str, value: &str) -> (r: String)
    ensures
        r@ == prefix@ + value@,
{
    string_from_chars(&concat_chars(&chars_of(prefix), &chars_of(value)))
}

/// A one-line description of a save's details, when they say anything.
pub fn save_details_summary(details: &SaveDetails) -> (r: Option<String>)
    ensures
        match r {
            Some(t) => details_summary(details.view().0, details.view().1, details.view().2) == Some(t@),
            None => details_summary(details.view().0, details.view().1, details.view().2) is None,
        },
{
    let ghost (mv, dv, cv) = details.view();
    let mut parts: Vec<String> = Vec::new();
    if details.maps.len() > 0 {
        parts.push(prefixed("map: ", details.maps[0].as_str()));
    }
    let ghost after_maps = views(parts@);
    if details.mods.len() > 0 {
        let joined = join_strings(&details.mods, ", ");
        parts.push(prefixed("mods: ", joined.as_str()));
    }
    let ghost after_mods = views(parts@);
    if details.campaigns.len() > 0 {
        parts.push(prefixed("campaign: ", details.campaigns[0].as_str()));
    }
    proof {
        assert(views(parts@) =~= summary_parts(mv, dv, cv));
    }
    if parts.len() == 0 {
        return None;
    }
    Some(join_strings(&parts, " · "))
}

// ----------------------------------------------------------------------
// Rewriting the progress node
// ----------------------------------------------------------------------

/// The text from `from` on, cut after each `\n` (`str::split_inclusive('\n')`).
pub open spec fn chunks_from(s: Seq<char>, from: int) -> Seq<Seq<char>>
    decreases s.len() - from,
{
    if from < 0 || from >= s.len() {
        Seq::empty()
    } else {
        let k = crate::text::find_char_from(s, '\n', from);
        proof {
            crate::text::lemma_find_char_from_bounds(s, '\n', from);
        }
        if k < 0 {
            seq![s.subrange(from, s.len() as int)]
        } else {
            seq![s.subrange(from, k + 1)] + chunks_from(s, k + 1)
        }
    }
}

pub open spec fn line_chunks(s: Seq<char>) -> Seq<Seq<char>> {
    chunks_from(s, 0)
}

/// A chunk without its `\n` and then without a `\r` before it.
pub open spec fn chunk_content(c: Seq<char>) -> Seq<char> {
    let l = if c.len() > 0 && c.last() == '\n' { c.drop_last() } else { c };
    if l.len() > 0 && l.last() == '\r' { l.drop_last() } else { l }
}

/// The concatenation of a list of texts.
pub open spec fn flatten(cs: Seq<Seq<char>>) -> Seq<char>
    decreases cs.len(),
{
    if cs.len() == 0 {
        Seq::empty()
    } else {
        flatten(cs.drop_last()) + cs.last()
    }
}

pub proof fn lemma_flatten_prepend(a: Seq<char>, rest: Seq<Seq<char>>)
    ensures
        flatten(seq![a] + rest) == a + flatten(rest),
    decreases rest.len(),
{
    if rest.len() == 0 {
        assert(seq![a] + rest =~= seq![a]);
        assert(seq![a].drop_last() =~= Seq::<Seq<char>>::empty());
        assert(flatten(seq![a]) == flatten(Seq::<Seq<char>>::empty()) + a);
        assert(Seq::<char>::empty() + a =~= a);
        assert(a + Seq::<char>::empty() =~= a);
    } else {
        assert((seq![a] + rest).drop_last() =~= seq![a] + rest.drop_last());
        assert((seq![a] + rest).last() == rest.last());
        lemma_flatten_prepend(a, rest.drop_last());
        assert(a + flatten(rest.drop_last()) + rest.last() =~= a + (flatten(rest.drop_last()) + rest.last()));
    }
}

/// The chunks of a text put back together give the text.
pub proof fn lemma_flatten_chunks(s: Seq<char>, from: int)
    requires
        0 <= from <= s.len(),
    ensures
        flatten(chunks_from(s, from)) == s.subrange(from, s.len() as int),
    decreases s.len() - from,
{
    crate::text::lemma_find_char_from_bounds(s, '\n', from);
    if from == s.len() {
        assert(s.subrange(from, s.len() as int) =~= Seq::<char>::empty());
    } else {
        let k = crate::text::find_char_from(s, '\n', from);
        if k < 0 {
            let x = s.subrange(from, s.len() as int);
            assert(chunks_from(s, from) == seq![x]);
            lemma_flatten_prepend(x, Seq::<Seq<char>>::empty());
            assert(seq![x] + Seq::<Seq<char>>::empty() =~= seq![x]);
            assert(x + Seq::<char>::empty() =~= x);
        } else {
            assert(chunks_from(s, from) == seq![s.subrange(from, k + 1)] + chunks_from(s, k + 1));
            lemma_flatten_chunks(s, k + 1);
            lemma_flatten_prepend(s.subrange(from, k + 1), chunks_from(s, k + 1));
            assert(s.subrange(from, k + 1) + s.subrange(k + 1, s.len() as int) =~= s.subrange(from, s.len() as int));
        }
    }
}

fn chunks_exec(s: &[char]) -> (r: Vec<Vec<char>>)
    ensures
        part_views(r@) == line_chunks(s@),
{
    let mut r: Vec<Vec<char>> = Vec::new();
    let mut from: usize = 0;
    while from < s.len()
        invariant
            from <= s.len(),
            line_chunks(s@) == part_views(r@) + chunks_from(s@, from as int),
        decreases s.len() - from,
    {
        proof {
            crate::text::lemma_find_char_from_bounds(s@, '\n', from as int);
        }
        match crate::text::find_char_exec(s, '\n', from) {
            Some(k) => {
                let c = crate::text::slice_chars(s, from, k + 1);
                proof {
                    assert(part_views(r@.push(c)) =~= part_views(r@).push(c@));
                    assert(part_views(r@) + chunks_from(s@, from as int) =~= part_views(r@).push(c@) + chunks_from(s@, k as int + 1));
                }
                r.push(c);
                from = k + 1;
            },
            None => {
                let c = crate::text::slice_chars(s, from, s.len());
                proof {
                    assert(part_views(r@.push(c)) =~= part_views(r@).push(c@));
                    assert(chunks_from(s@, s@.len() as int) =~= Seq::<Seq<char>>::empty());
                    assert(part_views(r@) + chunks_from(s@, from as int) =~= part_views(r@).push(c@) + chunks_from(s@, s@.len() as int));
                }
                r.push(c);
                from = s.len();
            },
        }
    }
    proof {
        assert(chunks_from(s@, from as int) =~= Seq::<Seq<char>>::empty());
        assert(line_chunks(s@) =~= part_views(r@));
    }
    r
}

fn chunk_content_exec(c: &[char]) -> (r: Vec<char>)
    ensures
        r@ == chunk_content(c@),
{
    let mut n = c.len();
    if n > 0 && c[n - 1] == '\n' {
        n = n - 1;
    }
    if n > 0 && c[n - 1] == '\r' {
        n = n - 1;
    }
    let r = crate::text::slice_chars(c, 0, n);
    proof {
        let l = if c@.len() > 0 && c@.last() == '\n' { c@.drop_last() } else { c@ };
        assert(l =~= c@.take(if c@.len() > 0 && c@.last() == '\n' { c@.len() - 1 } else { c@.len() as int }));
        assert(r@ =~= chunk_content(c@));
    }
    r
}

/// Index of the first chunk at or after `i` whose content is the slot's
/// progress node, or -1.
pub open spec fn first_node_chunk(cs: Seq<Seq<char>>, ids: Seq<Seq<char>>, i: int) -> int
    decreases cs.len() - i,
{
    if i < 0 || i >= cs.len() {
        -1
    } else if is_progress_node(chunk_content(cs[i]), ids) {
        i
    } else {
        first_node_chunk(cs, ids, i + 1)
    }
}

pub proof fn lemma_first_node_chunk_bounds(cs: Seq<Seq<char>>, ids: Seq<Seq<char>>, i: int)
    ensures
        first_node_chunk(cs, ids, i) == -1 || (0 <= i <= first_node_chunk(cs, ids, i) < cs.len()),
    decreases cs.len() - i,
{
    if i >= 0 && i < cs.len() && !is_progress_node(chunk_content(cs[i]), ids) {
        lemma_first_node_chunk_bounds(cs, ids, i + 1);
    }
}

/// `replace_progress_node_line`: the text with the content of its first
/// progress-node line replaced by `edit` of it (the line ending kept), and
/// whether there was such a line.
pub open spec fn replace_node(xml: Seq<char>, ids: Seq<Seq<char>>, edit: spec_fn(Seq<char>) -> Seq<char>) -> (Seq<char>, bool) {
    let cs = line_chunks(xml);
    let k = first_node_chunk(cs, ids, 0);
    if k < 0 {
        (xml, false)
    } else {
        let c = cs[k];
        (flatten(cs.take(k)) + edit(chunk_content(c)) + c.skip(chunk_content(c).len() as int) + flatten(cs.skip(k + 1)), true)
    }
}

/// Where the value of `key="..."` starts in `line`, or -1.
pub open spec fn key_value_start(line: Seq<char>, key: Seq<char>) -> int {
    let f = crate::text::find_from(line, key + "="@, 0);
    if f < 0 {
        -1
    } else {
        f + key.len() + 1
    }
}

/// `line` with the quoted value of `key` set to `0`.
pub open spec fn reset_key(v: Seq<char>, key: Seq<char>) -> Seq<char> {
    let start = key_value_start(v, key);
    if start < 0 || start >= v.len() {
        v
    } else {
        let q = v[start];
        if q != '"' && q != '\'' {
            v
        } else {
            let e = crate::text::find_char_from(v, q, start + 1);
            if e < 0 {
                v
            } else {
                v.take(start + 1) + "0"@ + v.skip(e)
            }
        }
    }
}

/// The progress node with `tutorialfinished` and `campaignfinished` cleared.
pub open spec fn reset_line(line: Seq<char>) -> Seq<char> {
    reset_key(reset_key(line, "tutorialfinished"@), "campaignfinished"@)
}

fn key_value_start_exec(line: &[char], key: &[char]) -> (r: Option<usize>)
    ensures
        match r {
            Some(s) => s as int == key_value_start(line@, key@) && s <= line@.len(),
            None => key_value_start(line@, key@) == -1,
        },
{
    let marker = concat_chars(key, &chars_of("="));
    proof {
        reveal_strlit("=");
    }
    match crate::text::find_from_exec(line, &marker, 0) {
        Some(f) => {
            proof {
                crate::text::lemma_find_from_bounds(line@, marker@, 0);
            }
            let n = line.len();
            assert(f + marker@.len() <= n);
            Some(f + marker.len())
        },
        None => None,
    }
}

fn reset_key_exec(v: &[char], key: &[char]) -> (r: Vec<char>)
    ensures
        r@ == reset_key(v@, key@),
{
    let copy = crate::text::slice_chars(v, 0, v.len());
    proof {
        assert(v@.subrange(0, v@.len() as int) =~= v@);
    }
    let start = match key_value_start_exec(v, key) {
        Some(s) => s,
        None => {
            return copy;
        },
    };
    if start >= v.len() {
        return copy;
    }
    let q = v[start];
    if q != '"' && q != '\'' {
        return copy;
    }
    proof {
        crate::text::lemma_find_char_from_bounds(v@, q, start as int + 1);
    }
    match crate::text::find_char_exec(v, q, start + 1) {
        Some(e) => {
            let head = crate::text::slice_chars(v, 0, start + 1);
            let tail = crate::text::slice_chars(v, e, v.len());
            let r = concat_chars(&concat_chars(&head, &chars_of("0")), &tail);
            proof {
                assert(head@ =~= v@.take(start as int + 1));
                assert(tail@ =~= v@.skip(e as int));
            }
            r
        },
        None => copy,
    }
}

fn reset_line_exec(line: &[char]) -> (r: Vec<char>)
    ensures
        r@ == reset_line(line@),
{
    let once = reset_key_exec(line, &chars_of("tutorialfinished"));
    reset_key_exec(&once, &chars_of("campaignfinished"))
}

/// Rewrites the first progress-node line of `xml`: cleared flags when
/// `replacement` is `None`, else the given line.
fn replace_progress_node_line(xml: &[char], ids: &Vec<String>, replacement: Option<&[char]>) -> (r: (Vec<char>, bool))
    ensures
        match replacement {
            None => (r.0@, r.1) == replace_node(xml@, views(ids@), |l: Seq<char>| reset_line(l)),
            Some(line) => (r.0@, r.1) == replace_node(xml@, views(ids@), |l: Seq<char>| line@),
        },
{
    let cs = chunks_exec(xml);
    let ghost cv = part_views(cs@);
    let ghost idv = views(ids@);
    let ghost edit: spec_fn(Seq<char>) -> Seq<char> = match replacement {
        None => |l: Seq<char>| reset_line(l),
        Some(line) => |l: Seq<char>| line@,
    };
    let mut result: Vec<char> = Vec::new();
    let mut changed = false;
    let mut i: usize = 0;
    proof {
        lemma_first_node_chunk_bounds(cv, idv, 0);
    }
    while i < cs.len()
        invariant
            i <= cs.len(),
            cv == part_views(cs@),
            cv == line_chunks(xml@),
            idv == views(ids@),
            edit == (match replacement {
                None => |l: Seq<char>| reset_line(l),
                Some(line) => |l: Seq<char>| line@,
            }),
            first_node_chunk(cv, idv, 0) == -1 || 0 <= first_node_chunk(cv, idv, 0) < cv.len(),
            !changed ==> first_node_chunk(cv, idv, 0) == first_node_chunk(cv, idv, i as int),
            !changed ==> result@ == flatten(cv.take(i as int)),
            changed ==> {
                let k = first_node_chunk(cv, idv, 0);
                &&& 0 <= k < i
                &&& result@ == flatten(cv.take(k)) + edit(chunk_content(cv[k])) + cv[k].skip(
                    chunk_content(cv[k]).len() as int,
                ) + flatten(cv.subrange(k + 1, i as int))
            },
        decreases cs.len() - i,
    {
        let content = chunk_content_exec(&cs[i]);
        if !changed && is_progress_node_exec(&content, ids) {
            let edited = match replacement {
                None => reset_line_exec(&content),
                Some(line) => concat_chars(line, &[]),
            };
            let ending = crate::text::slice_chars(&cs[i], content.len(), cs[i].len());
            let ghost before = result@;
            result = concat_chars(&concat_chars(&result, &edited), &ending);
            proof {
                assert(edited@ == edit(chunk_content(cv[i as int])));
                assert(ending@ =~= cv[i as int].skip(chunk_content(cv[i as int]).len() as int));
                assert(cv.subrange(i as int + 1, i as int + 1) =~= Seq::<Seq<char>>::empty());
                assert(result@ =~= before + edit(chunk_content(cv[i as int])) + cv[i as int].skip(
                    chunk_content(cv[i as int]).len() as int,
                ) + flatten(cv.subrange(i as int + 1, i as int + 1)));
            }
            changed = true;
        } else {
            let ghost before = result@;
            result = concat_chars(&result, &cs[i]);
            proof {
                if changed {
                    let k = first_node_chunk(cv, idv, 0);
                    assert(cv.subrange(k + 1, i as int + 1).drop_last() =~= cv.subrange(k + 1, i as int));
                    assert(result@ =~= flatten(cv.take(k)) + edit(chunk_content(cv[k])) + cv[k].skip(
                        chunk_content(cv[k]).len() as int,
                    ) + flatten(cv.subrange(k + 1, i as int + 1)));
                } else {
                    assert(cv.take(i as int + 1).drop_last() =~= cv.take(i as int));
                }
            }
        }
        i = i + 1;
    }
    proof {
        lemma_flatten_chunks(xml@, 0);
        assert(xml@.subrange(0, xml@.len() as int) =~= xml@);
        assert(cv.take(cv.len() as int) =~= cv);
        if changed {
            let k = first_node_chunk(cv, idv, 0);
            assert(cv.subrange(k + 1, cv.len() as int) =~= cv.skip(k + 1));
        }
    }
    (result, changed)
}

/// `reset_progress_node`: the progress node of the slot with its
/// `tutorialfinished` and `campaignfinished` values set to `0`.
pub fn reset_progress_node(xml: &str, spec: &CampaignProfileSpec) -> (r: (String, bool))
    ensures
        (r.0@, r.1) == replace_node(xml@, spec.ids_view(), |l: Seq<char>| reset_line(l)),
{
    let (text, changed) = replace_progress_node_line(&chars_of(xml), &spec.progress_ids, None);
    (string_from_chars(&text), changed)
}

/// The first line of `ls` that is the slot's progress node.
pub open spec fn first_node_line(ls: Seq<Seq<char>>, ids: Seq<Seq<char>>, i: int) -> Option<Seq<char>>
    decreases ls.len() - i,
{
    if i < 0 || i >= ls.len() {
        None
    } else if is_progress_node(ls[i], ids) {
        Some(ls[i])
    } else {
        first_node_line(ls, ids, i + 1)
    }
}

fn first_node_line_exec(text: &[char], ids: &Vec<String>) -> (r: Option<Vec<char>>)
    ensures
        match r {
            Some(l) => first_node_line(crate::text::lines(text@), views(ids@), 0) == Some(l@),
            None => first_node_line(crate::text::lines(text@), views(ids@), 0) is None,
        },
{
    let ls = crate::text::lines_exec(text);
    let ghost lv = crate::text::lines(text@);
    let mut i: usize = 0;
    while i < ls.len()
        invariant
            i <= ls.len(),
            ls@.len() == lv.len(),
            lv == crate::text::lines(text@),
            forall|j: int| 0 <= j < ls@.len() ==> #[trigger] ls@[j]@ == lv[j],
            first_node_line(lv, views(ids@), 0) == first_node_line(lv, views(ids@), i as int),
        decreases ls.len() - i,
    {
        if is_progress_node_exec(&ls[i], ids) {
            return Some(concat_chars(&ls[i], &[]));
        }
        i = i + 1;
    }
    None
}

/// `merge_progress_node`: the slot's node of `current` replaced by the
/// slot's node of `stored` (unchanged when `stored` has none).
pub fn merge_progress_node(current: &str, stored: &str, spec: &CampaignProfileSpec) -> (r: (String, bool))
    ensures
        match first_node_line(crate::text::lines(stored@), spec.ids_view(), 0) {
            None => r.0@ == current@ && !r.1,
            Some(line) => (r.0@, r.1) == replace_node(current@, spec.ids_view(), |l: Seq<char>| line),
        },
{
    match first_node_line_exec(&chars_of(stored), &spec.progress_ids) {
        None => (owned(current), false),
        Some(line) => {
            let (text, changed) = replace_progress_node_line(&chars_of(current), &spec.progress_ids, Some(&line));
            (string_from_chars(&text), changed)
        },
    }
}

// ----------------------------------------------------------------------
// Planned progress-key changes
// ----------------------------------------------------------------------

/// One `CampaignProgress.xml` attribute that a switch changes.
#[derive(Debug, Clone, PartialEq, Eq)]
pub struct ProgressKeyChange {
    pub key: String,
    pub current_value: String,
    pub planned_value: String,
    pub action: String,
}

impl ProgressKeyChange {
    pub open spec fn view(&self) -> (Seq<char>, Seq<char>, Seq<char>, Seq<char>) {
        (self.key@, self.current_value@, self.planned_value@, self.action@)
    }
}

pub open spec fn change_views(v: Seq<ProgressKeyChange>) -> Seq<(Seq<char>, Seq<char>, Seq<char>, Seq<char>)> {
    v.map_values(|c: ProgressKeyChange| c.view())
}

/// The value of `key` in `line`: the text between the character after
/// `key=` and the next occurrence of that same character.
pub open spec fn key_value(line: Seq<char>, key: Seq<char>) -> Option<Seq<char>> {
    let start = key_value_start(line, key);
    if start < 0 || start >= line.len() {
        None
    } else {
        let e = crate::text::find_char_from(line, line[start], start + 1);
        if e < 0 {
            None
        } else {
            Some(line.subrange(start + 1, e))
        }
    }
}

/// The character that opens the value of `key`, where there is one, is a
/// single byte in UTF-8 (the value is read one byte past it).
pub open spec fn key_value_readable(line: Seq<char>, key: Seq<char>) -> bool {
    let start = key_value_start(line, key);
    start < 0 || start >= line.len() || (line[start] as u32) < 128
}

pub open spec fn progress_line_readable(line: Seq<char>) -> bool {
    key_value_readable(line, "tutorialfinished"@) && key_value_readable(line, "campaignfinished"@)
}

fn key_value_exec(line: &[char], key: &[char]) -> (r: Option<Vec<char>>)
    ensures
        match r {
            Some(v) => key_value(line@, key@) == Some(v@),
            None => key_value(line@, key@) is None,
        },
{
    let start = match key_value_start_exec(line, key) {
        Some(s) => s,
        None => {
            return None;
        },
    };
    if start >= line.len() {
        return None;
    }
    proof {
        crate::text::lemma_find_char_from_bounds(line@, line@[start as int], start as int + 1);
    }
    match crate::text::find_char_exec(line, line[start], start + 1) {
        Some(e) => Some(crate::text::slice_chars(line, start + 1, e)),
        None => None,
    }
}

/// Whether `line` can be read for its progress keys.
pub fn progress_line_is_readable(line: &str) -> (r: bool)
    ensures
        r == progress_line_readable(line@),
{
    let l = chars_of(line);
    let a = match key_value_start_exec(&l, &chars_of("tutorialfinished")) {
        Some(s) => s >= l.len() || (l[s] as u32) < 128,
        None => true,
    };
    let b = match key_value_start_exec(&l, &chars_of("campaignfinished")) {
        Some(s) => s >= l.len() || (l[s] as u32) < 128,
        None => true,
    };
    a && b
}

pub open spec fn reset_action() -> Seq<char> {
    "reset target campaign node for clean mod profile"@
}

pub open spec fn restore_action() -> Seq<char> {
    "restore target campaign node from its saved profile"@
}

pub open spec fn reset_change(line: Seq<char>, key: Seq<char>) -> Seq<(Seq<char>, Seq<char>, Seq<char>, Seq<char>)> {
    match key_value(line, key) {
        Some(v) => seq![(key, v, "0"@, reset_action())],
        None => Seq::empty(),
    }
}

pub open spec fn restore_change(current: Seq<char>, target: Seq<char>, key: Seq<char>) -> Seq<(Seq<char>, Seq<char>, Seq<char>, Seq<char>)> {
    match (key_value(current, key), key_value(target, key)) {
        (Some(c), Some(t)) => seq![(key, c, t, restore_action())],
        _ => Seq::empty(),
    }
}

fn push_change(out: &mut Vec<ProgressKeyChange>, key: &str, current: &[char], planned: &str, action: &str)
    ensures
        change_views(final(out)@) == change_views(old(out)@).push((key@, current@, planned@, action@)),
{
    let c = ProgressKeyChange {
        key: owned(key),
        current_value: string_from_chars(current),
        planned_value: owned(planned),
        action: owned(action),
    };
    let ghost before = out@;
    out.push(c);
    proof {
        assert(change_views(out@) =~= change_views(before).push((key@, current@, planned@, action@)));
    }
}

/// `campaign_progress_key_changes`: the flags of the slot's node that a
/// clean profile resets to `0`, with their current values.
pub fn campaign_progress_key_changes(line: &str) -> (r: Vec<ProgressKeyChange>)
    requires
        progress_line_readable(line@),
    ensures
        change_views(r@) == reset_change(line@, "tutorialfinished"@) + reset_change(line@, "campaignfinished"@),
{
    let l = chars_of(line);
    let mut out: Vec<ProgressKeyChange> = Vec::new();
    let ghost start = change_views(out@);
    if let Some(v) = key_value_exec(&l, &chars_of("tutorialfinished")) {
        push_change(&mut out, "tutorialfinished", &v, "0", "reset target campaign node for clean mod profile");
    }
    let ghost mid = change_views(out@);
    if let Some(v) = key_value_exec(&l, &chars_of("campaignfinished")) {
        push_change(&mut out, "campaignfinished", &v, "0", "reset target campaign node for clean mod profile");
    }
    proof {
        assert(mid =~= start + reset_change(line@, "tutorialfinished"@));
        assert(change_views(out@) =~= reset_change(line@, "tutorialfinished"@) + reset_change(line@, "campaignfinished"@));
    }
    out
}

/// `campaign_progress_key_changes_between`: for each flag that both nodes
/// carry, its current value and the value the saved target node restores.
pub fn campaign_progress_key_changes_between(current: &str, target: &str) -> (r: Vec<ProgressKeyChange>)
    requires
        progress_line_readable(current@),
        progress_line_readable(target@),
    ensures
        change_views(r@) == restore_change(current@, target@, "tutorialfinished"@) + restore_change(
            current@,
            target@,
            "campaignfinished"@,
        ),
{
    let c = chars_of(current);
    let t = chars_of(target);
    let mut out: Vec<ProgressKeyChange> = Vec::new();
    let ghost start = change_views(out@);
    let k1 = chars_of("tutorialfinished");
    if let (Some(a), Some(b)) = (key_value_exec(&c, &k1), key_value_exec(&t, &k1)) {
        push_change(&mut out, "tutorialfinished", &a, string_from_chars(&b).as_str(), "restore target campaign node from its saved profile");
    }
    let ghost mid = change_views(out@);
    let k2 = chars_of("campaignfinished");
    if let (Some(a), Some(b)) = (key_value_exec(&c, &k2), key_value_exec(&t, &k2)) {
        push_change(&mut out, "campaignfinished", &a, string_from_chars(&b).as_str(), "restore target campaign node from its saved profile");
    }
    proof {
        assert(mid =~= start + restore_change(current@, target@, "tutorialfinished"@));
        assert(change_views(out@) =~= restore_change(current@, target@, "tutorialfinished"@) + restore_change(
            current@,
            target@,
            "campaignfinished"@,
        ));
    }
    out
}

// ----------------------------------------------------------------------
// Bank shape
// ----------------------------------------------------------------------

/// How many of `ls` contain `p`.
pub open spec fn count_containing(ls: Seq<Seq<char>>, p: Seq<char>) -> nat
    decreases ls.len(),
{
    if ls.len() == 0 {
        0
    } else {
        count_containing(ls.drop_last(), p) + if contains(ls.last(), p) { 1nat } else { 0nat }
    }
}

/// The shape of a bank's text: its section lines and key lines.
pub fn bank_shape(text: &str) -> (r: (usize, usize))
    ensures
        r.0 == count_containing(crate::text::lines(text@), "<Section name="@),
        r.1 == count_containing(crate::text::lines(text@), "<Key name="@),
{
    let ls = crate::text::lines_exec(&chars_of(text));
    let ghost lv = crate::text::lines(text@);
    let section = chars_of("<Section name=");
    let key = chars_of("<Key name=");
    let mut sections: usize = 0;
    let mut keys: usize = 0;
    let mut i: usize = 0;
    while i < ls.len()
        invariant
            i <= ls.len(),
            ls@.len() == lv.len(),
            lv == crate::text::lines(text@),
            forall|j: int| 0 <= j < ls@.len() ==> #[trigger] ls@[j]@ == lv[j],
            section@ == "<Section name="@,
            key@ == "<Key name="@,
            sections == count_containing(lv.take(i as int), section@),
            keys == count_containing(lv.take(i as int), key@),
            sections <= i,
            keys <= i,
        decreases ls.len() - i,
    {
        proof {
            assert(lv.take(i as int + 1).drop_last() =~= lv.take(i as int));
            assert(lv.take(i as int + 1).last() == ls@[i as int]@);
        }
        if contains_exec(&ls[i], &section) {
            sections = sections + 1;
        }
        if contains_exec(&ls[i], &key) {
            keys = keys + 1;
        }
        i = i + 1;
    }
    proof {
        assert(lv.take(lv.len() as int) =~= lv);
    }
    (sections, keys)
}

// ----------------------------------------------------------------------
// Choosing the progress lines
// ----------------------------------------------------------------------

/// The first line of `ls` at or after `j` that names `id`.
pub open spec fn first_line_naming(ls: Seq<Seq<char>>, id: Seq<char>, j: int) -> Option<Seq<char>>
    decreases ls.len() - j,
{
    if j < 0 || j >= ls.len() {
        None
    } else if names_progress_id(ls[j], id) {
        Some(ls[j])
    } else {
        first_line_naming(ls, id, j + 1)
    }
}

/// For the first of `ids` (from `i` on) that some line names, the first such
/// line, trimmed.
pub open spec fn node_line_by_ids(ls: Seq<Seq<char>>, ids: Seq<Seq<char>>, i: int) -> Option<Seq<char>>
    decreases ids.len() - i,
{
    if i < 0 || i >= ids.len() {
        None
    } else {
        match first_line_naming(ls, ids[i], 0) {
            Some(l) => Some(crate::text::trim(l)),
            None => node_line_by_ids(ls, ids, i + 1),
        }
    }
}

/// The slot's current progress node in a profile's `CampaignProgress.xml`:
/// the ids are tried in order.
pub open spec fn current_progress_line(xml: Seq<char>, ids: Seq<Seq<char>>) -> Option<Seq<char>> {
    node_line_by_ids(crate::text::lines(xml), ids, 0)
}

/// The slot's node in a stored `CampaignProgress.xml`: the first line that
/// names any of the ids, trimmed.
pub open spec fn stored_progress_line(xml: Seq<char>, ids: Seq<Seq<char>>) -> Option<Seq<char>> {
    match first_node_line(crate::text::lines(xml), ids, 0) {
        Some(l) => Some(crate::text::trim(l)),
        None => None,
    }
}

fn first_line_naming_exec(ls: &Vec<Vec<char>>, id: &[char]) -> (r: Option<Vec<char>>)
    ensures
        match r {
            Some(l) => first_line_naming(part_views(ls@), id@, 0) == Some(l@),
            None => first_line_naming(part_views(ls@), id@, 0) is None,
        },
{
    let ghost lv = part_views(ls@);
    let mut j: usize = 0;
    while j < ls.len()
        invariant
            j <= ls.len(),
            lv == part_views(ls@),
            first_line_naming(lv, id@, 0) == first_line_naming(lv, id@, j as int),
        decreases ls.len() - j,
    {
        if names_progress_id_exec(&ls[j], id) {
            return Some(concat_chars(&ls[j], &[]));
        }
        j = j + 1;
    }
    None
}

/// The slot's current progress node of a profile's `CampaignProgress.xml`.
pub fn find_current_progress_line(xml: &str, spec: &CampaignProfileSpec) -> (r: Option<String>)
    ensures
        match r {
            Some(l) => current_progress_line(xml@, spec.ids_view()) == Some(l@),
            None => current_progress_line(xml@, spec.ids_view()) is None,
        },
{
    let raw = crate::text::lines_exec(&chars_of(xml));
    let ls = copy_components(&raw, 0);
    proof {
        assert(part_views(raw@).skip(0) =~= part_views(raw@));
        assert(part_views(ls@) =~= crate::text::lines(xml@));
    }
    let ghost idv = spec.ids_view();
    let mut i: usize = 0;
    while i < spec.progress_ids.len()
        invariant
            i <= spec.progress_ids.len(),
            idv == spec.ids_view(),
            part_views(ls@) == crate::text::lines(xml@),
            node_line_by_ids(crate::text::lines(xml@), idv, 0) == node_line_by_ids(crate::text::lines(xml@), idv, i as int),
        decreases spec.progress_ids.len() - i,
    {
        if let Some(l) = first_line_naming_exec(&ls, &chars_of(spec.progress_ids[i].as_str())) {
            return Some(string_from_chars(&crate::text::trim_exec(&l)));
        }
        i = i + 1;
    }
    None
}

/// The slot's node of a stored `CampaignProgress.xml`.
pub fn find_stored_progress_line(xml: &str, spec: &CampaignProfileSpec) -> (r: Option<String>)
    ensures
        match r {
            Some(l) => stored_progress_line(xml@, spec.ids_view()) == Some(l@),
            None => stored_progress_line(xml@, spec.ids_view()) is None,
        },
{
    match first_node_line_exec(&chars_of(xml), &spec.progress_ids) {
        Some(l) => Some(string_from_chars(&crate::text::trim_exec(&l))),
        None => None,
    }
}


/// The LotV slot never takes a prologue or an epilogue save: those are
/// campaigns of their own, whatever else the name says. Any other slot-named
/// save (its lower-cased name contains the marker) belongs to the slot.
pub proof fn lemma_void_slot_leaves_prologue_and_epilogue_saves(name: Seq<char>, marker: Seq<char>)
    ensures
        lower(marker) == "void"@ && (contains(lower(name), "prologue"@) || contains(lower(name), "epilogue"@))
            ==> !save_filename_matches_spec(name, marker),
        !contains(lower(name), lower(marker)) ==> !save_filename_matches_spec(name, marker),
        contains(lower(name), lower(marker)) && lower(marker) != "void"@ ==> save_filename_matches_spec(name, marker),
        contains(lower(name), lower(marker)) && !contains(lower(name), "prologue"@) && !contains(lower(name), "epilogue"@)
            ==> save_filename_matches_spec(name, marker),
{
}

} // verus!
