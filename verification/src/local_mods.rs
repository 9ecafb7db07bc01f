//! Local mods: a player's own packages, copied into CCM's store and listed
//! beside the catalog's campaigns under IDs that never change.

use vstd::prelude::*;
use crate::metadata::{metadata_field, metadata_field_spec};
use crate::paths::{campaign_target_hots, campaign_target_lotv, campaign_target_nco, campaign_target_wol, join_path, join_path_exec};
use crate::state::{campaign_id_error, campaign_id_ok, validate_campaign_id};
use crate::text::{
    chars_eq, chars_of, concat_chars, decimal, decimal_exec, is_ascii_alnum, is_ascii_alnum_exec, lower_char,
    lower_char_exec, owned, string_from_chars, trim, trim_exec,
};

verus! {

/// How many local mods CCM tracks at most.
pub const MAX_LOCAL_MODS: usize = 200;

/// The longest suggested ID, leaving room for a collision suffix within the
/// 80 characters a campaign ID may have.
pub const MAX_LOCAL_MOD_ID_LEN: usize = 70;

/// The format of the local-mod list.
pub const LOCAL_MOD_STORE_FORMAT: u32 = 1;

/// One local mod as CCM's list records it.
#[derive(Debug, Clone, PartialEq, Eq)]
pub struct LocalModRecord {
    pub id: String,
    pub title: String,
    pub author: String,
    pub version: String,
    pub description: String,
    pub campaign: String,
    pub archive_file: String,
    pub sha256: String,
    pub size: u64,
    pub added_at: u64,
}

/// A record with the path of CCM's copy of its archive.
#[derive(Debug, Clone, PartialEq, Eq)]
pub struct LocalModEntry {
    pub record: LocalModRecord,
    pub archive_path: String,
}

/// What a local package says of itself before it is added.
#[derive(Debug, Clone, PartialEq, Eq)]
pub struct LocalPackageInspection {
    pub title: String,
    pub author: String,
    pub version: String,
    pub description: String,
    pub campaign: String,
    pub target_path: String,
    pub sha256: String,
    pub size: u64,
    pub files: usize,
    pub suggested_id: String,
}

/// Values the player gives in place of the package's own.
#[derive(Debug, Clone, PartialEq, Eq)]
pub struct LocalModOverrides {
    pub title: Option<String>,
    pub author: Option<String>,
    pub version: Option<String>,
    pub description: Option<String>,
}

// ----------------------------------------------------------------------
// Branch names
// ----------------------------------------------------------------------

/// `campaign_slot_for_target`: the slot name of a campaign branch.
pub open spec fn slot_for_target(target: Seq<char>) -> Option<Seq<char>> {
    if target == campaign_target_wol() {
        Some("wings-of-liberty"@)
    } else if target == campaign_target_hots() {
        Some("heart-of-the-swarm"@)
    } else if target == campaign_target_lotv() {
        Some("legacy-of-the-void"@)
    } else if target == campaign_target_nco() {
        Some("nova-covert-ops"@)
    } else {
        None
    }
}

/// `campaign_display_for_target`: the display name of a campaign branch.
pub open spec fn display_for_target(target: Seq<char>) -> Option<Seq<char>> {
    if target == campaign_target_wol() {
        Some("Wings of Liberty"@)
    } else if target == campaign_target_hots() {
        Some("Heart of the Swarm"@)
    } else if target == campaign_target_lotv() {
        Some("Legacy of the Void"@)
    } else if target == campaign_target_nco() {
        Some("Nova Covert Ops"@)
    } else {
        None
    }
}

fn text_is(a: &str, b: &str) -> (r: bool)
    ensures
        r == (a@ == b@),
{
    chars_eq(&chars_of(a), &chars_of(b))
}

/// The slot name of a campaign branch, for the branches CCM knows.
pub fn campaign_slot_for_target(target: &str) -> (r: Option<String>)
    ensures
        match r {
            Some(s) => slot_for_target(target@) == Some(s@),
            None => slot_for_target(target@) is None,
        },
{
    if text_is(target, "Maps/Campaign") {
        Some(owned("wings-of-liberty"))
    } else if text_is(target, "Maps/Campaign/swarm") {
        Some(owned("heart-of-the-swarm"))
    } else if text_is(target, "Maps/Campaign/void") {
        Some(owned("legacy-of-the-void"))
    } else if text_is(target, "Maps/Campaign/nova") {
        Some(owned("nova-covert-ops"))
    } else {
        None
    }
}

pub open spec fn unknown_campaign_error() -> Seq<char> {
    "metadata.txt campaign= is not a campaign CCM Reborn understands."@
}

/// The campaign name shown for a branch, or the error for an unknown one.
pub fn campaign_display_for_target(target_path: &str) -> (r: Result<String, String>)
    ensures
        match r {
            Ok(s) => display_for_target(target_path@) == Some(s@),
            Err(e) => display_for_target(target_path@) is None && e@ == unknown_campaign_error(),
        },
{
    if text_is(target_path, "Maps/Campaign") {
        Ok(owned("Wings of Liberty"))
    } else if text_is(target_path, "Maps/Campaign/swarm") {
        Ok(owned("Heart of the Swarm"))
    } else if text_is(target_path, "Maps/Campaign/void") {
        Ok(owned("Legacy of the Void"))
    } else if text_is(target_path, "Maps/Campaign/nova") {
        Ok(owned("Nova Covert Ops"))
    } else {
        Err(owned("metadata.txt campaign= is not a campaign CCM Reborn understands."))
    }
}

// ----------------------------------------------------------------------
// IDs
// ----------------------------------------------------------------------

/// The name before its last `.` (`rsplit_once('.')`), or the whole name.
pub open spec fn stem(name: Seq<char>) -> Seq<char> {
    let k = crate::resume::last_dot(name, name.len() as int);
    if k < 0 {
        name
    } else {
        name.take(k)
    }
}

/// The slug of `s`: ASCII letters and digits lower-cased, every other run of
/// characters after the first kept one becoming a single `-`.
pub open spec fn raw_slug(s: Seq<char>) -> Seq<char>
    decreases s.len(),
{
    if s.len() == 0 {
        Seq::empty()
    } else {
        let prev = raw_slug(s.drop_last());
        let c = s.last();
        if is_ascii_alnum(c) {
            prev.push(lower_char(c))
        } else if prev.len() > 0 && prev.last() != '-' {
            prev.push('-')
        } else {
            prev
        }
    }
}

/// `s` without trailing `-`.
pub open spec fn trim_end_dashes(s: Seq<char>) -> Seq<char>
    decreases s.len(),
{
    if s.len() > 0 && s.last() == '-' {
        trim_end_dashes(s.drop_last())
    } else {
        s
    }
}

/// `local_mod_slug`: the slug of an archive name's stem (it never starts
/// with `-`, so trimming its end trims both ends).
pub open spec fn slug_spec(name: Seq<char>) -> Seq<char> {
    trim_end_dashes(raw_slug(stem(name)))
}

fn trim_end_dashes_exec(s: &[char]) -> (r: Vec<char>)
    ensures
        r@ == trim_end_dashes(s@),
{
    let mut n = s.len();
    proof {
        assert(s@.take(n as int) =~= s@);
    }
    while n > 0 && s[n - 1] == '-'
        invariant
            n <= s.len(),
            trim_end_dashes(s@) == trim_end_dashes(s@.take(n as int)),
        decreases n,
    {
        proof {
            assert(s@.take(n as int).drop_last() =~= s@.take(n as int - 1));
        }
        n = n - 1;
    }
    let r = crate::text::slice_chars(s, 0, n);
    proof {
        assert(r@ =~= s@.take(n as int));
    }
    r
}

/// The ASCII slug of an archive's file name: lower-case letters and digits
/// joined by single dashes.
pub fn local_mod_slug(archive_file_name: &str) -> (r: String)
    ensures
        r@ == slug_spec(archive_file_name@),
{
    let name = chars_of(archive_file_name);
    let st = match crate::resume::last_dot_exec(&name) {
        Some(k) => crate::text::slice_chars(&name, 0, k),
        None => concat_chars(&name, &[]),
    };
    proof {
        assert(st@ =~= stem(name@));
    }
    let mut slug: Vec<char> = Vec::new();
    let mut i: usize = 0;
    while i < st.len()
        invariant
            i <= st.len(),
            slug@ == raw_slug(st@.take(i as int)),
        decreases st.len() - i,
    {
        let c = st[i];
        proof {
            assert(st@.take(i as int + 1).drop_last() =~= st@.take(i as int));
        }
        if is_ascii_alnum_exec(c) {
            slug.push(lower_char_exec(c));
        } else if slug.len() > 0 && slug[slug.len() - 1] != '-' {
            slug.push('-');
        }
        i = i + 1;
    }
    proof {
        assert(st@.take(st@.len() as int) =~= st@);
    }
    string_from_chars(&trim_end_dashes_exec(&slug))
}

/// `suggested_local_mod_id`: `local-` and the archive's slug (or, when the
/// name has no usable ASCII, the hash's first twelve characters), cut to 70
/// characters and without trailing `-`.
pub open spec fn suggested_id_spec(name: Seq<char>, sha256: Seq<char>) -> Seq<char> {
    let slug = slug_spec(name);
    let base = if slug.len() == 0 { sha256.take(if sha256.len() < 12 { sha256.len() as int } else { 12 }) } else { slug };
    let id = "local-"@ + base;
    trim_end_dashes(id.take(if id.len() < 70 { id.len() as int } else { 70 }))
}

/// The suggested ID of a local archive (see `suggested_id_spec`).
pub fn suggested_local_mod_id(archive_file_name: &str, sha256: &str) -> (r: String)
    ensures
        r@ == suggested_id_spec(archive_file_name@, sha256@),
{
    let slug = chars_of(local_mod_slug(archive_file_name).as_str());
    let base = if slug.len() == 0 {
        let h = chars_of(sha256);
        let n = if h.len() < 12 { h.len() } else { 12 };
        crate::text::slice_chars(&h, 0, n)
    } else {
        slug
    };
    let id = concat_chars(&chars_of("local-"), &base);
    let n = if id.len() < MAX_LOCAL_MOD_ID_LEN { id.len() } else { MAX_LOCAL_MOD_ID_LEN };
    let cut = crate::text::slice_chars(&id, 0, n);
    proof {
        assert(cut@ =~= id@.take(n as int));
        if slug@.len() == 0 {
            assert(base@ =~= sha256@.take(if sha256@.len() < 12 { sha256@.len() as int } else { 12 }));
        }
    }
    string_from_chars(&trim_end_dashes_exec(&cut))
}

pub open spec fn record_ids(mods: Seq<LocalModRecord>) -> Seq<Seq<char>> {
    mods.map_values(|m: LocalModRecord| m.id@)
}

pub open spec fn suffixed(suggested: Seq<char>, n: nat) -> Seq<char> {
    suggested + "-"@ + decimal(n)
}

/// The smallest suffix from `from` to 999 whose ID is free, or 1000.
pub open spec fn first_free_suffix(suggested: Seq<char>, taken: Seq<Seq<char>>, from: nat) -> nat
    decreases 1000 - from,
{
    if from >= 1000 {
        1000
    } else if !taken.contains(suffixed(suggested, from)) {
        from
    } else {
        first_free_suffix(suggested, taken, from + 1)
    }
}

/// `unique_local_mod_id`: the suggestion when it is free, else the first free
/// `-2` ... `-999` variant; the ID must be a valid campaign ID.
pub open spec fn unique_id_outcome(suggested: Seq<char>, taken: Seq<Seq<char>>) -> Result<Seq<char>, Seq<char>> {
    let candidate = if !taken.contains(suggested) {
        Some(suggested)
    } else if first_free_suffix(suggested, taken, 2) < 1000 {
        Some(suffixed(suggested, first_free_suffix(suggested, taken, 2)))
    } else {
        None
    };
    match candidate {
        None => Err("Too many local mods share that archive name."@),
        Some(c) => if campaign_id_ok(c) {
            Ok(c)
        } else {
            Err(campaign_id_error())
        },
    }
}

fn id_taken(mods: &Vec<LocalModRecord>, candidate: &[char]) -> (r: bool)
    ensures
        r == record_ids(mods@).contains(candidate@),
{
    let mut i: usize = 0;
    while i < mods.len()
        invariant
            i <= mods.len(),
            forall|j: int| 0 <= j < i ==> #[trigger] record_ids(mods@)[j] != candidate@,
        decreases mods.len() - i,
    {
        if chars_eq(&chars_of(mods[i].id.as_str()), candidate) {
            proof {
                assert(record_ids(mods@)[i as int] == candidate@);
            }
            return true;
        }
        i = i + 1;
    }
    false
}

/// An ID no listed mod has (see `unique_id_outcome`).
pub fn unique_local_mod_id(suggested: &str, mods: &Vec<LocalModRecord>) -> (r: Result<String, String>)
    ensures
        match r {
            Ok(id) => unique_id_outcome(suggested@, record_ids(mods@)) == Ok::<Seq<char>, Seq<char>>(id@),
            Err(e) => unique_id_outcome(suggested@, record_ids(mods@)) == Err::<Seq<char>, Seq<char>>(e@),
        },
{
    let s = chars_of(suggested);
    if !id_taken(mods, &s) {
        validate_campaign_id(suggested)?;
        return Ok(owned(suggested));
    }
    let mut suffix: u64 = 2;
    while suffix <= 999
        invariant
            2 <= suffix <= 1000,
            s@ == suggested@,
            record_ids(mods@).contains(suggested@),
            first_free_suffix(suggested@, record_ids(mods@), 2) == first_free_suffix(
                suggested@,
                record_ids(mods@),
                suffix as nat,
            ),
        decreases 1000 - suffix,
    {
        let mut candidate = concat_chars(&s, &chars_of("-"));
        candidate = concat_chars(&candidate, &decimal_exec(suffix));
        if !id_taken(mods, &candidate) {
            let id = string_from_chars(&candidate);
            validate_campaign_id(id.as_str())?;
            return Ok(id);
        }
        suffix = suffix + 1;
    }
    Err(owned("Too many local mods share that archive name."))
}

/// Whatever the list holds, an ID that `unique_local_mod_id` gives is a valid
/// campaign ID that no listed mod has: a new mod never takes over another's
/// progress.
pub proof fn lemma_unique_id_is_fresh(suggested: Seq<char>, taken: Seq<Seq<char>>)
    requires
        unique_id_outcome(suggested, taken) is Ok,
    ensures
        !taken.contains(unique_id_outcome(suggested, taken)->Ok_0),
        campaign_id_ok(unique_id_outcome(suggested, taken)->Ok_0),
{
    if taken.contains(suggested) {
        lemma_first_free_suffix(suggested, taken, 2);
    }
}

/// A local mod keeps its ID across removal and re-adding: once the mod with
/// an archive's suggested ID is removed from a list of distinct IDs, adding
/// that archive again gives it the suggested ID, whatever title or other
/// overrides come with it.
pub proof fn lemma_readding_keeps_the_id(
    mods: Seq<LocalModRecord>,
    k: int,
    inspection: LocalPackageInspection,
    overrides: LocalModOverrides,
    added_at: u64,
    rec: LocalModRecord,
)
    requires
        0 <= k < mods.len(),
        forall|a: int, b: int| 0 <= a < b < mods.len() ==> #[trigger] mods[a].id@ != #[trigger] mods[b].id@,
        mods[k].id@ == inspection.suggested_id@,
        unique_id_outcome(inspection.suggested_id@, record_ids(mods.remove(k))) is Ok,
        new_record_fields(
            rec,
            inspection,
            unique_id_outcome(inspection.suggested_id@, record_ids(mods.remove(k)))->Ok_0,
            overrides,
            added_at,
        ),
    ensures
        rec.id@ == inspection.suggested_id@,
{
    let rest = mods.remove(k);
    if record_ids(rest).contains(inspection.suggested_id@) {
        let j = choose|j: int| 0 <= j < record_ids(rest).len() && record_ids(rest)[j] == inspection.suggested_id@;
        if j < k {
            assert(rest[j] == mods[j]);
            assert(mods[j].id@ != mods[k].id@);
        } else {
            assert(rest[j] == mods[j + 1]);
            assert(mods[k].id@ != mods[j + 1].id@);
        }
    }
}

proof fn lemma_first_free_suffix(suggested: Seq<char>, taken: Seq<Seq<char>>, from: nat)
    ensures
        first_free_suffix(suggested, taken, from) < 1000 ==> !taken.contains(
            suffixed(suggested, first_free_suffix(suggested, taken, from)),
        ),
    decreases 1000 - from,
{
    if from < 1000 && taken.contains(suffixed(suggested, from)) {
        lemma_first_free_suffix(suggested, taken, from + 1);
    }
}

// ----------------------------------------------------------------------
// Records
// ----------------------------------------------------------------------

/// `override_or`: the trimmed override when it is not blank, else the fallback.
pub open spec fn override_spec(value: Option<Seq<char>>, fallback: Seq<char>) -> Seq<char> {
    match value {
        Some(v) => if trim(v).len() > 0 {
            trim(v)
        } else {
            fallback
        },
        None => fallback,
    }
}

pub open spec fn opt_text(o: Option<String>) -> Option<Seq<char>> {
    match o {
        Some(s) => Some(s@),
        None => None,
    }
}

/// A trimmed override, or the fallback when the override is blank.
pub fn override_or(value: &Option<String>, fallback: String) -> (r: String)
    ensures
        r@ == override_spec(opt_text(*value), fallback@),
{
    match value {
        Some(v) => {
            let t = trim_exec(&chars_of(v.as_str()));
            if t.len() > 0 {
                return string_from_chars(&t);
            }
            fallback
        },
        None => fallback,
    }
}

/// The fields of a local package's inspection that its metadata gives.
pub open spec fn inspection_fields(
    i: LocalPackageInspection,
    metadata: Seq<char>,
    target_path: Seq<char>,
    archive_file_name: Seq<char>,
    sha256: Seq<char>,
) -> bool {
    let slug = slug_spec(archive_file_name);
    &&& i.title@ == (match metadata_field_spec(metadata, "title"@) {
        Some(t) => t,
        None => if slug.len() == 0 { "Local campaign"@ } else { slug },
    })
    &&& i.author@ == (match metadata_field_spec(metadata, "author"@) {
        Some(t) => t,
        None => Seq::empty(),
    })
    &&& i.version@ == (match metadata_field_spec(metadata, "version"@) {
        Some(t) => t,
        None => Seq::empty(),
    })
    &&& i.description@ == (match metadata_field_spec(metadata, "desc"@) {
        Some(t) => t,
        None => match metadata_field_spec(metadata, "description"@) {
            Some(t) => t,
            None => Seq::empty(),
        },
    })
    &&& Some(i.campaign@) == display_for_target(target_path)
    &&& i.target_path@ == target_path
    &&& i.suggested_id@ == suggested_id_spec(archive_file_name, sha256)
    &&& i.sha256@ == sha256
}

fn field_or_empty(metadata: &str, name: &str) -> (r: String)
    ensures
        r@ == match metadata_field_spec(metadata@, name@) {
            Some(t) => t,
            None => Seq::empty(),
        },
{
    match metadata_field(metadata, name) {
        Some(t) => t,
        None => String::new(),
    }
}

/// What `inspect_local_package_file` says of the file it is given: it must
/// be a regular file (not a link or a folder), not empty, and no larger than
/// a package may be.
pub open spec fn local_archive_outcome(is_regular: bool, size: u64) -> Result<(), Seq<char>> {
    if !is_regular {
        Err("Choose a regular .zip file, not a link or a folder."@)
    } else if size == 0 {
        Err("That archive is empty."@)
    } else if size > crate::install_plan::MAX_ARCHIVE_BYTES {
        Err("Package is larger than the allowed size."@)
    } else {
        Ok(())
    }
}

/// The checks on a local archive before it is read.
pub fn check_local_archive_file(is_regular: bool, size: u64) -> (r: Result<(), String>)
    ensures
        match r {
            Ok(_) => local_archive_outcome(is_regular, size) is Ok,
            Err(e) => local_archive_outcome(is_regular, size) == Err::<(), Seq<char>>(e@),
        },
{
    if !is_regular {
        return Err(owned("Choose a regular .zip file, not a link or a folder."));
    }
    if size == 0 {
        return Err(owned("That archive is empty."));
    }
    if size > crate::install_plan::MAX_ARCHIVE_BYTES {
        return Err(owned("Package is larger than the allowed size."));
    }
    Ok(())
}

/// `inspect_local_package_file` once the package is read: what its metadata
/// says, under the branch it installs to.
pub fn local_package_inspection(
    metadata: &str,
    target_path: &str,
    archive_file_name: &str,
    sha256: &str,
    size: u64,
    files: usize,
) -> (r: Result<LocalPackageInspection, String>)
    ensures
        match r {
            Ok(i) => inspection_fields(i, metadata@, target_path@, archive_file_name@, sha256@) && i.size == size
                && i.files == files,
            Err(e) => display_for_target(target_path@) is None && e@ == unknown_campaign_error(),
        },
{
    let campaign = campaign_display_for_target(target_path)?;
    let fallback = local_mod_slug(archive_file_name);
    let title = match metadata_field(metadata, "title") {
        Some(t) => t,
        None => if fallback.as_str().is_empty() { owned("Local campaign") } else { fallback },
    };
    let description = match metadata_field(metadata, "desc") {
        Some(t) => t,
        None => field_or_empty(metadata, "description"),
    };
    Ok(LocalPackageInspection {
        title,
        author: field_or_empty(metadata, "author"),
        version: field_or_empty(metadata, "version"),
        description,
        campaign,
        target_path: owned(target_path),
        sha256: owned(sha256),
        size,
        files,
        suggested_id: suggested_local_mod_id(archive_file_name, sha256),
    })
}

/// The record a newly added local package gets.
pub open spec fn new_record_fields(
    r: LocalModRecord,
    i: LocalPackageInspection,
    id: Seq<char>,
    o: LocalModOverrides,
    added_at: u64,
) -> bool {
    &&& r.id@ == id
    &&& r.title@ == override_spec(opt_text(o.title), i.title@)
    &&& r.author@ == override_spec(opt_text(o.author), i.author@)
    &&& r.version@ == override_spec(opt_text(o.version), i.version@)
    &&& r.description@ == override_spec(opt_text(o.description), i.description@)
    &&& r.campaign@ == i.campaign@
    &&& r.archive_file@ == id + ".zip"@
    &&& r.sha256@ == i.sha256@
    &&& r.size == i.size
    &&& r.added_at == added_at
}

/// `add_local_mod_at`, its decisions: refuse a full list, pick a fresh ID and
/// build the record (CCM's copy is stored as `<id>.zip`).
pub fn plan_local_mod_record(
    inspection: LocalPackageInspection,
    mods: &Vec<LocalModRecord>,
    overrides: &LocalModOverrides,
    added_at: u64,
) -> (r: Result<LocalModRecord, String>)
    ensures
        match r {
            Ok(rec) => mods@.len() < MAX_LOCAL_MODS && unique_id_outcome(inspection.suggested_id@, record_ids(mods@))
                is Ok && new_record_fields(
                rec,
                inspection,
                unique_id_outcome(inspection.suggested_id@, record_ids(mods@))->Ok_0,
                *overrides,
                added_at,
            ),
            Err(e) => if mods@.len() >= MAX_LOCAL_MODS {
                e@ == "CCM already tracks the maximum number of local mods."@
            } else {
                unique_id_outcome(inspection.suggested_id@, record_ids(mods@)) == Err::<Seq<char>, Seq<char>>(e@)
            },
        },
{
    if mods.len() >= MAX_LOCAL_MODS {
        return Err(owned("CCM already tracks the maximum number of local mods."));
    }
    let id = unique_local_mod_id(inspection.suggested_id.as_str(), mods)?;
    let archive_file = string_from_chars(&concat_chars(&chars_of(id.as_str()), &chars_of(".zip")));
    Ok(LocalModRecord {
        id,
        title: override_or(&overrides.title, inspection.title),
        author: override_or(&overrides.author, inspection.author),
        version: override_or(&overrides.version, inspection.version),
        description: override_or(&overrides.description, inspection.description),
        campaign: inspection.campaign,
        archive_file,
        sha256: inspection.sha256,
        size: inspection.size,
        added_at,
    })
}

/// `add_local_mod_at`, after the copy: a copy whose hash differs from the
/// inspected archive's is refused.
pub fn check_copied_archive(copied_sha256: &str, inspected_sha256: &str) -> (r: Result<(), String>)
    ensures
        r is Ok <==> copied_sha256@ == inspected_sha256@,
        r matches Err(e) ==> e@ == "That archive changed while CCM was copying it. Nothing was added."@,
{
    if text_is(copied_sha256, inspected_sha256) {
        Ok(())
    } else {
        Err(owned("That archive changed while CCM was copying it. Nothing was added."))
    }
}

/// `local_mod_entry`: a record with the path of `root/archives/<archive_file>`.
pub fn local_mod_entry(root: &str, record: LocalModRecord) -> (r: LocalModEntry)
    ensures
        r.record == record,
        r.archive_path@ == join_path(join_path(root@, "archives"@), record.archive_file@),
{
    let dir = join_path_exec(&chars_of(root), &chars_of("archives"));
    let path = join_path_exec(&dir, &chars_of(record.archive_file.as_str()));
    LocalModEntry { record, archive_path: string_from_chars(&path) }
}

/// `remove_local_mod_at`, on the list: the first record with the ID leaves
/// it and is returned; the rest keep their order.
pub fn remove_local_mod_record(mods: &mut Vec<LocalModRecord>, id: &str) -> (r: Option<LocalModRecord>)
    ensures
        match r {
            Some(rec) => exists|k: int|
                0 <= k < old(mods)@.len() && old(mods)@[k] == rec && rec.id@ == id@ && (forall|j: int|
                    0 <= j < k ==> #[trigger] old(mods)@[j].id@ != id@) && final(mods)@ == old(mods)@.remove(k),
            None => final(mods)@ == old(mods)@ && !record_ids(old(mods)@).contains(id@),
        },
{
    let target = chars_of(id);
    let mut i: usize = 0;
    while i < mods.len()
        invariant
            i <= mods.len(),
            target@ == id@,
            mods@ == old(mods)@,
            forall|j: int| 0 <= j < i ==> #[trigger] old(mods)@[j].id@ != id@,
        decreases mods.len() - i,
    {
        if chars_eq(&chars_of(mods[i].id.as_str()), &target) {
            let rec = mods.remove(i);
            return Some(rec);
        }
        i = i + 1;
    }
    proof {
        assert forall|k: int| 0 <= k < record_ids(old(mods)@).len() implies #[trigger] record_ids(old(mods)@)[k] != id@ by {
            assert(old(mods)@[k].id@ != id@);
        }
    }
    None
}

/// `read_local_mods_strict` after parsing: only the known list format is read.
pub fn check_local_mod_store(format: u32, mods: Vec<LocalModRecord>) -> (r: Result<Vec<LocalModRecord>, String>)
    ensures
        match r {
            Ok(m) => format == LOCAL_MOD_STORE_FORMAT && m == mods,
            Err(e) => format != LOCAL_MOD_STORE_FORMAT && e@ == "CCM local-mod list uses an unsupported format."@,
        },
{
    if format != LOCAL_MOD_STORE_FORMAT {
        return Err(owned("CCM local-mod list uses an unsupported format."));
    }
    Ok(mods)
}

} // verus!
