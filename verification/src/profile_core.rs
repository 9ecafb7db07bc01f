//! Profile identities, progress summaries, file digests and the installed
//! package inventory: the pure primitives shared by the desktop app and the CLI.

use vstd::prelude::*;
use crate::text::{
    chars_eq, chars_of, concat_chars, decimal, decimal_exec, find_char_exec, has_hex_only,
    has_hex_only_exec, is_ascii_alnum, is_ascii_alnum_exec, lemma_decimal_digits, lemma_decimal_injective,
    owned, string_from_chars, trim, trim_exec,
};
use crate::install::{hex_text, sha256_of};
use crate::paths::{has_char, is_safe_relative, is_safe_relative_exec, join_path, join_path_exec};
use crate::state::{starts_with_component, starts_with_component_exec};
use crate::order::{
    insertion_sort, is_sorted, stable_sort_of, lemma_stable_sort_of_sorted, lemma_text_lt_laws, opt_later, opt_later_exec, text_lt, text_lt_exec, ListOrder,
};

verus! {

pub const MANIFEST_SCHEMA_VERSION: u32 = 1;
pub const INSTALLED_MANIFEST_SCHEMA_VERSION: u32 = 1;

// ----------------------------------------------------------------------
// Profile identity
// ----------------------------------------------------------------------

/// A campaign family at one major version; minor updates share a profile.
#[derive(Debug, Clone, PartialEq, Eq)]
pub struct ProfileIdentity {
    pub family_id: String,
    pub major_version: u32,
    pub campaign_id: String,
    pub profile_key: String,
}

/// A profile component: after trimming, 1 to 100 characters from
/// `[A-Za-z0-9._-]`.
pub open spec fn component_ok(v: Seq<char>) -> bool {
    &&& 0 < v.len() <= 100
    &&& forall|i: int| 0 <= i < v.len() ==> is_ascii_alnum(#[trigger] v[i]) || v[i] == '-' || v[i] == '_' || v[i] == '.'
}

pub open spec fn component_error(field: Seq<char>) -> Seq<char> {
    field + " may use only letters, numbers, dots, dashes, and underscores."@
}

pub open spec fn component_outcome(value: Seq<char>, field: Seq<char>) -> Result<Seq<char>, Seq<char>> {
    if component_ok(trim(value)) { Ok(trim(value)) } else { Err(component_error(field)) }
}

fn component_ok_exec(v: &[char]) -> (r: bool)
    ensures
        r == component_ok(v@),
{
    if v.len() == 0 || v.len() > 100 {
        return false;
    }
    let mut i: usize = 0;
    while i < v.len()
        invariant
            i <= v.len(),
            forall|j: int| 0 <= j < i ==> is_ascii_alnum(#[trigger] v@[j]) || v@[j] == '-' || v@[j] == '_' || v@[j] == '.',
        decreases v.len() - i,
    {
        let c = v[i];
        if !(is_ascii_alnum_exec(c) || c == '-' || c == '_' || c == '.') {
            return false;
        }
        i = i + 1;
    }
    true
}

/// `validate_component`: the trimmed value, if it is a valid component.
pub fn validate_component(value: &str, field: &str) -> (r: Result<String, String>)
    ensures
        match r {
            Ok(v) => component_outcome(value@, field@) == Ok::<Seq<char>, Seq<char>>(v@),
            Err(e) => component_outcome(value@, field@) == Err::<Seq<char>, Seq<char>>(e@),
        },
{
    let trimmed = trim_exec(&chars_of(value));
    if component_ok_exec(&trimmed) {
        Ok(string_from_chars(&trimmed))
    } else {
        let message = concat_chars(&chars_of(field), &chars_of(" may use only letters, numbers, dots, dashes, and underscores."));
        Err(string_from_chars(&message))
    }
}

/// `family@major`.
pub open spec fn profile_key_spec(family: Seq<char>, major: u32) -> Seq<char> {
    family + seq!['@'] + decimal(major as nat)
}

pub open spec fn identity_outcome(family: Seq<char>, major: u32, campaign: Seq<char>) -> Result<(Seq<char>, Seq<char>), Seq<char>> {
    match component_outcome(family, "familyId"@) {
        Err(e) => Err(e),
        Ok(f) => match component_outcome(campaign, "campaignId"@) {
            Err(e) => Err(e),
            Ok(c) => if major == 0 { Err("majorVersion must be greater than zero."@) } else { Ok((f, c)) },
        },
    }
}

impl ProfileIdentity {
    /// Validates a family and campaign ID and derives the profile key.
    pub fn new(family_id: &str, major_version: u32, campaign_id: &str) -> (r: Result<Self, String>)
        ensures
            match r {
                Ok(id) => identity_outcome(family_id@, major_version, campaign_id@)
                        == Ok::<(Seq<char>, Seq<char>), Seq<char>>((id.family_id@, id.campaign_id@))
                    && id.major_version == major_version
                    && id.profile_key@ == profile_key_spec(id.family_id@, major_version),
                Err(e) => identity_outcome(family_id@, major_version, campaign_id@) == Err::<(Seq<char>, Seq<char>), Seq<char>>(e@),
            },
    {
        let family_id = validate_component(family_id, "familyId")?;
        let campaign_id = validate_component(campaign_id, "campaignId")?;
        if major_version == 0 {
            return Err(owned("majorVersion must be greater than zero."));
        }
        let mut key = chars_of(family_id.as_str());
        key.push('@');
        let key = concat_chars(&key, &decimal_exec(major_version as u64));
        Ok(ProfileIdentity {
            profile_key: string_from_chars(&key),
            family_id,
            major_version,
            campaign_id,
        })
    }
}

/// Two valid families give the same profile key exactly when they name the
/// same family at the same major version: minor updates keep a profile and a
/// new major version gets its own.
pub proof fn lemma_profile_key_identifies_family_and_major(f1: Seq<char>, m1: u32, f2: Seq<char>, m2: u32)
    requires
        component_ok(f1),
        component_ok(f2),
    ensures
        (profile_key_spec(f1, m1) == profile_key_spec(f2, m2)) <==> (f1 == f2 && m1 == m2),
{
    if profile_key_spec(f1, m1) == profile_key_spec(f2, m2) {
        let k = profile_key_spec(f1, m1);
        if f1.len() < f2.len() {
            assert(k[f1.len() as int] == '@');
            assert(k[f1.len() as int] == f2[f1.len() as int]);
        } else if f2.len() < f1.len() {
            assert(k[f2.len() as int] == '@');
            assert(k[f2.len() as int] == f1[f2.len() as int]);
        }
        assert(f1.len() == f2.len());
        assert(f1 =~= k.take(f1.len() as int));
        assert(f2 =~= k.take(f2.len() as int));
        assert(decimal(m1 as nat) =~= k.skip(f1.len() as int + 1));
        assert(decimal(m2 as nat) =~= k.skip(f2.len() as int + 1));
        lemma_decimal_injective(m1 as nat, m2 as nat);
    }
}

// ----------------------------------------------------------------------
// Progress summaries
// ----------------------------------------------------------------------

#[derive(Debug, Clone, Copy, PartialEq, Eq)]
pub enum ProgressState {
    NotStarted,
    InProgress,
    Completed,
    Unknown,
}

/// One campaign's progress as shown in a branch's list.
#[derive(Debug, Clone, PartialEq, Eq)]
pub struct CampaignProgressSummary {
    pub schema_version: u32,
    pub profile_key: String,
    pub family_id: String,
    pub major_version: u32,
    pub campaign_id: String,
    pub branch: String,
    pub title: String,
    pub author: String,
    pub version: String,
    pub is_current: bool,
    pub profile_present: bool,
    pub state: ProgressState,
    pub last_played_at: Option<u64>,
    pub last_played_source: Option<String>,
    pub last_mission: Option<String>,
    pub last_successful_mission: Option<String>,
    pub last_map: Option<String>,
    pub mission_completed_count: Option<u32>,
    pub save_count: usize,
    pub save_bytes: u64,
    pub warnings: Vec<String>,
}

/// Played campaigns (in progress or completed) rank above the rest.
pub open spec fn progress_rank_spec(state: ProgressState) -> u8 {
    match state {
        ProgressState::InProgress | ProgressState::Completed => 1,
        ProgressState::NotStarted | ProgressState::Unknown => 0,
    }
}

fn progress_rank(summary: &CampaignProgressSummary) -> (r: u8)
    ensures
        r == progress_rank_spec(summary.state),
{
    match summary.state {
        ProgressState::InProgress | ProgressState::Completed => 1,
        ProgressState::NotStarted | ProgressState::Unknown => 0,
    }
}

/// Unicode lower-casing of a text, as `str::to_lowercase` computes it.
pub uninterp spec fn unicode_lowercase(s: Seq<char>) -> Seq<char>;

/// `str::to_lowercase`; the result is named, not spelled out.
#[verifier::external_body]
fn to_lowercase(s: &str) -> (r: String)
    ensures
        r@ == unicode_lowercase(s@),
{
    s.to_lowercase()
}

/// The list order of summaries: played campaigns first, then the most
/// recently played, then by lower-cased title, then by campaign ID.
pub open spec fn summary_precedes(a: CampaignProgressSummary, b: CampaignProgressSummary) -> bool {
    let ra = progress_rank_spec(a.state);
    let rb = progress_rank_spec(b.state);
    let ta = unicode_lowercase(a.title@);
    let tb = unicode_lowercase(b.title@);
    ||| ra > rb
    ||| ra == rb && opt_later(a.last_played_at, b.last_played_at)
    ||| ra == rb && a.last_played_at == b.last_played_at && text_lt(ta, tb)
    ||| ra == rb && a.last_played_at == b.last_played_at && ta == tb && text_lt(a.campaign_id@, b.campaign_id@)
}

fn opt_eq(a: Option<u64>, b: Option<u64>) -> (r: bool)
    ensures
        r == (a == b),
{
    match (a, b) {
        (Some(x), Some(y)) => x == y,
        (None, None) => true,
        _ => false,
    }
}

impl ListOrder for CampaignProgressSummary {
    open spec fn precedes(a: Self, b: Self) -> bool {
        summary_precedes(a, b)
    }

    proof fn lemma_order(a: Self, b: Self, c: Self) {
        lemma_text_lt_laws(unicode_lowercase(a.title@), unicode_lowercase(b.title@), unicode_lowercase(c.title@));
        lemma_text_lt_laws(unicode_lowercase(a.title@), unicode_lowercase(c.title@), unicode_lowercase(b.title@));
        lemma_text_lt_laws(unicode_lowercase(b.title@), unicode_lowercase(c.title@), unicode_lowercase(a.title@));
        lemma_text_lt_laws(a.campaign_id@, b.campaign_id@, c.campaign_id@);
        lemma_text_lt_laws(a.campaign_id@, c.campaign_id@, b.campaign_id@);
        lemma_text_lt_laws(b.campaign_id@, c.campaign_id@, a.campaign_id@);
    }

    fn precedes_exec(a: &Self, b: &Self) -> (r: bool) {
        let ra = progress_rank(a);
        let rb = progress_rank(b);
        if ra != rb {
            return ra > rb;
        }
        if !opt_eq(a.last_played_at, b.last_played_at) {
            return opt_later_exec(a.last_played_at, b.last_played_at);
        }
        let ta = chars_of(to_lowercase(a.title.as_str()).as_str());
        let tb = chars_of(to_lowercase(b.title.as_str()).as_str());
        if !chars_eq(&ta, &tb) {
            return text_lt_exec(&ta, &tb);
        }
        proof {
            lemma_text_lt_laws(ta@, tb@, ta@);
        }
        text_lt_exec(&chars_of(a.campaign_id.as_str()), &chars_of(b.campaign_id.as_str()))
    }
}

/// `sort_progress_summaries`: arranges summaries in list order (played first,
/// most recent first, then title, then campaign ID).
pub fn sort_progress_summaries(summaries: &mut [CampaignProgressSummary])
    ensures
        final(summaries)@.to_multiset() == old(summaries)@.to_multiset(),
        final(summaries)@.len() == old(summaries)@.len(),
        is_sorted(final(summaries)@),
        stable_sort_of(final(summaries)@, old(summaries)@),
{
    insertion_sort(summaries);
}

/// Sorting summaries that `sort_progress_summaries` already sorted leaves
/// them unchanged: the second sort of the first sort's result is that result.
pub proof fn lemma_sort_progress_summaries_idempotent(
    once: Seq<CampaignProgressSummary>,
    twice: Seq<CampaignProgressSummary>,
)
    requires
        is_sorted(once),
        stable_sort_of(twice, once),
    ensures
        twice == once,
{
    lemma_stable_sort_of_sorted(twice, once);
}


// ----------------------------------------------------------------------
// Relative paths (profile-core wording)
// ----------------------------------------------------------------------

pub open spec fn core_relative_outcome(value: Seq<char>) -> Result<Seq<char>, Seq<char>> {
    if value.len() == 0 || has_char(value, '\\') {
        Err("Path must be a non-empty relative path using forward slashes."@)
    } else if !is_safe_relative(value) {
        Err("Path cannot be absolute or contain . / .. segments."@)
    } else {
        Ok(value)
    }
}

/// `safe_relative_path` of the profile core: the same acceptance as the
/// package check, with this module's messages.
pub fn safe_relative_path(value: &str) -> (r: Result<String, String>)
    ensures
        match r {
            Ok(p) => core_relative_outcome(value@) == Ok::<Seq<char>, Seq<char>>(p@),
            Err(e) => core_relative_outcome(value@) == Err::<Seq<char>, Seq<char>>(e@),
        },
{
    let v = chars_of(value);
    if v.len() == 0 || find_char_exec(&v, '\\', 0).is_some() {
        return Err(owned("Path must be a non-empty relative path using forward slashes."));
    }
    if !is_safe_relative_exec(&v) {
        return Err(owned("Path cannot be absolute or contain . / .. segments."));
    }
    Ok(owned(value))
}

// ----------------------------------------------------------------------
// Profile manifests
// ----------------------------------------------------------------------

/// One file of a stored campaign profile.
#[derive(Debug, Clone, PartialEq, Eq)]
pub struct ProfileFile {
    pub relative_path: String,
    pub size: u64,
    pub sha256: String,
    pub kind: String,
}

/// What a stored profile says of the player's progress.
#[derive(Debug, Clone, PartialEq, Eq)]
pub struct ProgressSnapshot {
    pub state: ProgressState,
    pub last_mission: Option<String>,
    pub last_successful_mission: Option<String>,
    pub last_map: Option<String>,
    pub mission_completed_count: Option<u32>,
}

/// The description of one stored campaign profile.
#[derive(Debug, Clone, PartialEq, Eq)]
pub struct ProfileManifest {
    pub schema_version: u32,
    pub identity: ProfileIdentity,
    pub branch: String,
    pub title: String,
    pub author: String,
    pub version: String,
    pub package_sha256: String,
    pub captured_at: u64,
    pub last_played_at: Option<u64>,
    pub last_played_source: Option<String>,
    pub files: Vec<ProfileFile>,
    pub progress: Option<ProgressSnapshot>,
}

pub open spec fn profile_schema_error(schema: u32) -> Seq<char> {
    "Unsupported profile manifest schema "@ + decimal(schema as nat) + "."@
}

/// `read_manifest`: a profile manifest parsed from disk is accepted exactly
/// when it has the current schema.
pub fn read_manifest(manifest: ProfileManifest) -> (r: Result<ProfileManifest, String>)
    ensures
        match r {
            Ok(m) => manifest.schema_version == MANIFEST_SCHEMA_VERSION && m == manifest,
            Err(e) => manifest.schema_version != MANIFEST_SCHEMA_VERSION && e@ == profile_schema_error(
                manifest.schema_version,
            ),
        },
{
    if manifest.schema_version != MANIFEST_SCHEMA_VERSION {
        let m = concat_chars(&chars_of("Unsupported profile manifest schema "), &decimal_exec(manifest.schema_version as u64));
        return Err(string_from_chars(&concat_chars(&m, &chars_of("."))));
    }
    Ok(manifest)
}

// ----------------------------------------------------------------------
// Installed-package inventory
// ----------------------------------------------------------------------

/// One file that a package installation wrote into the game.
#[derive(Debug, Clone, PartialEq, Eq)]
pub struct InstalledFile {
    pub destination: String,
    pub source: String,
    pub size: u64,
    pub sha256: String,
    pub kind: String,
}

/// The exact inventory of files written by one package installation.
#[derive(Debug, Clone, PartialEq, Eq)]
pub struct InstalledManifest {
    pub schema_version: u32,
    pub campaign_id: String,
    pub title: String,
    pub author: String,
    pub version: String,
    pub package_sha256: String,
    pub target_path: String,
    pub installed_at: u64,
    pub files: Vec<InstalledFile>,
}

/// Sixty-four hexadecimal digits.
pub open spec fn is_sha256_hex(s: Seq<char>) -> bool {
    s.len() == 64 && has_hex_only(s)
}

pub fn is_sha256_hex_exec(s: &str) -> (r: bool)
    ensures
        r == is_sha256_hex(s@),
{
    let v = chars_of(s);
    v.len() == 64 && has_hex_only_exec(&v)
}

pub open spec fn schema_error(schema: u32) -> Seq<char> {
    "Unsupported installed manifest schema "@ + decimal(schema as nat) + "."@
}

fn schema_error_exec(schema: u32) -> (r: String)
    ensures
        r@ == schema_error(schema),
{
    let m = concat_chars(&chars_of("Unsupported installed manifest schema "), &decimal_exec(schema as u64));
    string_from_chars(&concat_chars(&m, &chars_of(".")))
}

pub open spec fn write_files_outcome(files: Seq<InstalledFile>, i: int) -> Result<(), Seq<char>>
    decreases files.len() - i,
{
    if i < 0 || i >= files.len() {
        Ok(())
    } else {
        match core_relative_outcome(files[i].destination@) {
            Err(e) => Err(e),
            Ok(_) => if files[i].source@.len() == 0 || !is_sha256_hex(files[i].sha256@) {
                Err("Installed manifest contains an invalid file entry."@)
            } else {
                write_files_outcome(files, i + 1)
            },
        }
    }
}

/// Whether an installed manifest may be written, and if not, why.
pub open spec fn write_manifest_outcome(m: InstalledManifest) -> Result<(), Seq<char>> {
    if m.schema_version != INSTALLED_MANIFEST_SCHEMA_VERSION {
        Err(schema_error(m.schema_version))
    } else if m.files@.len() == 0 {
        Err("Installed manifest cannot be empty."@)
    } else {
        write_files_outcome(m.files@, 0)
    }
}

/// `write_installed_manifest_atomic`: the checks that gate writing an
/// installed manifest.  The caller writes the JSON document atomically only
/// when this answers `Ok`.
pub fn write_installed_manifest_atomic(manifest: &InstalledManifest) -> (r: Result<(), String>)
    ensures
        match r {
            Ok(_) => write_manifest_outcome(*manifest) is Ok,
            Err(e) => write_manifest_outcome(*manifest) == Err::<(), Seq<char>>(e@),
        },
{
    if manifest.schema_version != INSTALLED_MANIFEST_SCHEMA_VERSION {
        return Err(schema_error_exec(manifest.schema_version));
    }
    if manifest.files.len() == 0 {
        return Err(owned("Installed manifest cannot be empty."));
    }
    let mut i: usize = 0;
    while i < manifest.files.len()
        invariant
            i <= manifest.files.len(),
            write_manifest_outcome(*manifest) == write_files_outcome(manifest.files@, i as int),
        decreases manifest.files.len() - i,
    {
        let file = &manifest.files[i];
        safe_relative_path(file.destination.as_str())?;
        if file.source.as_str().is_empty() || !is_sha256_hex_exec(file.sha256.as_str()) {
            return Err(owned("Installed manifest contains an invalid file entry."));
        }
        i = i + 1;
    }
    Ok(())
}

pub open spec fn read_files_outcome(files: Seq<InstalledFile>, i: int) -> Result<(), Seq<char>>
    decreases files.len() - i,
{
    if i < 0 || i >= files.len() {
        Ok(())
    } else {
        match core_relative_outcome(files[i].destination@) {
            Err(e) => Err(e),
            Ok(_) => if starts_with_component(files[i].destination@, ".ccm-reborn"@) {
                Err("Installed manifest cannot own CCM manager files."@)
            } else if !is_sha256_hex(files[i].sha256@) {
                Err("Installed manifest contains an invalid file hash."@)
            } else {
                read_files_outcome(files, i + 1)
            },
        }
    }
}

/// Whether a manifest read from disk is accepted, and if not, why.
pub open spec fn read_manifest_outcome(m: InstalledManifest) -> Result<(), Seq<char>> {
    if m.schema_version != INSTALLED_MANIFEST_SCHEMA_VERSION {
        Err(schema_error(m.schema_version))
    } else if m.files@.len() == 0 {
        Err("Installed manifest is empty."@)
    } else {
        read_files_outcome(m.files@, 0)
    }
}

/// `read_installed_manifest`: the checks applied to a manifest parsed from
/// disk; the manifest is returned when it is accepted.
pub fn read_installed_manifest(manifest: InstalledManifest) -> (r: Result<InstalledManifest, String>)
    ensures
        match r {
            Ok(m) => read_manifest_outcome(manifest) is Ok && m == manifest,
            Err(e) => read_manifest_outcome(manifest) == Err::<(), Seq<char>>(e@),
        },
{
    if manifest.schema_version != INSTALLED_MANIFEST_SCHEMA_VERSION {
        return Err(schema_error_exec(manifest.schema_version));
    }
    if manifest.files.len() == 0 {
        return Err(owned("Installed manifest is empty."));
    }
    let mut i: usize = 0;
    while i < manifest.files.len()
        invariant
            i <= manifest.files.len(),
            read_manifest_outcome(manifest) == read_files_outcome(manifest.files@, i as int),
        decreases manifest.files.len() - i,
    {
        let file = &manifest.files[i];
        safe_relative_path(file.destination.as_str())?;
        if starts_with_component_exec(file.destination.as_str(), ".ccm-reborn") {
            return Err(owned("Installed manifest cannot own CCM manager files."));
        }
        if !is_sha256_hex_exec(file.sha256.as_str()) {
            return Err(owned("Installed manifest contains an invalid file hash."));
        }
        i = i + 1;
    }
    Ok(manifest)
}

proof fn lemma_written_files_read_back(files: Seq<InstalledFile>, i: int)
    requires
        write_files_outcome(files, i) is Ok,
        forall|j: int| 0 <= j < files.len() ==> !starts_with_component(#[trigger] files[j].destination@, ".ccm-reborn"@),
    ensures
        read_files_outcome(files, i) is Ok,
    decreases files.len() - i,
{
    if 0 <= i < files.len() {
        assert(!starts_with_component(files[i].destination@, ".ccm-reborn"@));
        lemma_written_files_read_back(files, i + 1);
    }
}

/// A manifest that may be written reads back unchanged, unless it claims one
/// of CCM's own files: what an install records is what a later update or
/// rollback trusts.
pub proof fn lemma_written_manifest_reads_back(m: InstalledManifest)
    requires
        write_manifest_outcome(m) is Ok,
        forall|j: int| 0 <= j < m.files@.len() ==> !starts_with_component(#[trigger] m.files@[j].destination@, ".ccm-reborn"@),
    ensures
        read_manifest_outcome(m) is Ok,
{
    lemma_written_files_read_back(m.files@, 0);
}


// ----------------------------------------------------------------------
// File digests and round-trip reports
// ----------------------------------------------------------------------

/// The size and SHA-256 of one file, by its path relative to a root.
#[derive(Debug, Clone, PartialEq, Eq)]
pub struct FileDigest {
    pub relative_path: String,
    pub size: u64,
    pub sha256: String,
}

/// What was found at a digest's path when it was checked again.
#[derive(Debug, Clone, PartialEq, Eq)]
pub struct ObservedFile {
    pub present: bool,
    pub size: u64,
    pub sha256: String,
}

/// The outcome of comparing a root against a snapshot.
#[derive(Debug, Clone, PartialEq, Eq)]
pub struct RoundTripReport {
    pub equal: bool,
    pub checked_files: usize,
    pub missing: Vec<String>,
    pub changed: Vec<String>,
}

impl ListOrder for FileDigest {
    open spec fn precedes(a: Self, b: Self) -> bool {
        text_lt(a.relative_path@, b.relative_path@)
    }

    proof fn lemma_order(a: Self, b: Self, c: Self) {
        lemma_text_lt_laws(a.relative_path@, b.relative_path@, c.relative_path@);
        lemma_text_lt_laws(a.relative_path@, c.relative_path@, b.relative_path@);
        lemma_text_lt_laws(b.relative_path@, c.relative_path@, a.relative_path@);
    }

    fn precedes_exec(a: &Self, b: &Self) -> (r: bool) {
        text_lt_exec(&chars_of(a.relative_path.as_str()), &chars_of(b.relative_path.as_str()))
    }
}

/// The ordering step of a snapshot: digests sorted by relative path.
pub fn sort_file_digests(digests: &mut [FileDigest])
    ensures
        final(digests)@.to_multiset() == old(digests)@.to_multiset(),
        final(digests)@.len() == old(digests)@.len(),
        is_sorted(final(digests)@),
        stable_sort_of(final(digests)@, old(digests)@),
{
    insertion_sort(digests);
}

/// The path step of a snapshot: the file a relative path names under a root.
pub fn snapshot_path(root: &str, relative: &str) -> (r: Result<String, String>)
    ensures
        match r {
            Ok(p) => core_relative_outcome(relative@) is Ok && p@ == join_path(root@, relative@),
            Err(e) => core_relative_outcome(relative@) == Err::<Seq<char>, Seq<char>>(e@),
        },
{
    let safe = safe_relative_path(relative)?;
    Ok(string_from_chars(&join_path_exec(&chars_of(root), &chars_of(safe.as_str()))))
}

/// A snapshot file that is missing now.
pub open spec fn is_missing(o: ObservedFile) -> bool {
    !o.present
}

/// A snapshot file whose size or hash differs now.
pub open spec fn is_changed(d: FileDigest, o: ObservedFile) -> bool {
    o.present && (o.size != d.size || o.sha256@ != d.sha256@)
}

/// The paths of the first `n` digests that are missing.
pub open spec fn missing_paths(expected: Seq<FileDigest>, observed: Seq<ObservedFile>, n: int) -> Seq<Seq<char>>
    decreases n,
{
    if n <= 0 {
        Seq::empty()
    } else if is_missing(observed[n - 1]) {
        missing_paths(expected, observed, n - 1).push(expected[n - 1].relative_path@)
    } else {
        missing_paths(expected, observed, n - 1)
    }
}

/// The paths of the first `n` digests that changed.
pub open spec fn changed_paths(expected: Seq<FileDigest>, observed: Seq<ObservedFile>, n: int) -> Seq<Seq<char>>
    decreases n,
{
    if n <= 0 {
        Seq::empty()
    } else if is_changed(expected[n - 1], observed[n - 1]) {
        changed_paths(expected, observed, n - 1).push(expected[n - 1].relative_path@)
    } else {
        changed_paths(expected, observed, n - 1)
    }
}

/// The first unsafe digest path from index `i` on, if any.
pub open spec fn digest_paths_outcome(expected: Seq<FileDigest>, i: int) -> Result<(), Seq<char>>
    decreases expected.len() - i,
{
    if i < 0 || i >= expected.len() {
        Ok(())
    } else {
        match core_relative_outcome(expected[i].relative_path@) {
            Err(e) => Err(e),
            Ok(_) => digest_paths_outcome(expected, i + 1),
        }
    }
}

/// `compare_snapshot`: given what is now found at each snapshot path, lists
/// the missing and the changed files; the root is unchanged exactly when
/// both lists are empty.
pub fn compare_snapshot(expected: &[FileDigest], observed: &[ObservedFile]) -> (r: Result<RoundTripReport, String>)
    requires
        expected.len() == observed.len(),
    ensures
        match r {
            Ok(report) => {
                &&& digest_paths_outcome(expected@, 0) is Ok
                &&& report.checked_files == expected.len()
                &&& report.missing@.map_values(|p: String| p@) == missing_paths(expected@, observed@, expected.len() as int)
                &&& report.changed@.map_values(|p: String| p@) == changed_paths(expected@, observed@, expected.len() as int)
                &&& report.equal == (report.missing@.len() == 0 && report.changed@.len() == 0)
            },
            Err(e) => digest_paths_outcome(expected@, 0) == Err::<(), Seq<char>>(e@),
        },
{
    let mut missing: Vec<String> = Vec::new();
    let mut changed: Vec<String> = Vec::new();
    let mut i: usize = 0;
    while i < expected.len()
        invariant
            i <= expected.len() == observed.len(),
            digest_paths_outcome(expected@, 0) == digest_paths_outcome(expected@, i as int),
            missing@.map_values(|p: String| p@) == missing_paths(expected@, observed@, i as int),
            changed@.map_values(|p: String| p@) == changed_paths(expected@, observed@, i as int),
        decreases expected.len() - i,
    {
        let digest = &expected[i];
        let seen = &observed[i];
        safe_relative_path(digest.relative_path.as_str())?;
        if !seen.present {
            let p = digest.relative_path.clone();
            proof {
                assert(missing@.push(p).map_values(|p: String| p@)
                    =~= missing@.map_values(|p: String| p@).push(digest.relative_path@));
            }
            missing.push(p);
        } else if seen.size != digest.size || !chars_eq(&chars_of(seen.sha256.as_str()), &chars_of(digest.sha256.as_str())) {
            let p = digest.relative_path.clone();
            proof {
                assert(changed@.push(p).map_values(|p: String| p@)
                    =~= changed@.map_values(|p: String| p@).push(digest.relative_path@));
            }
            changed.push(p);
        }
        i = i + 1;
    }
    let equal = missing.len() == 0 && changed.len() == 0;
    Ok(RoundTripReport { equal, checked_files: expected.len(), missing, changed })
}

proof fn lemma_unchanged_prefix(expected: Seq<FileDigest>, observed: Seq<ObservedFile>, n: int)
    requires
        0 <= n <= expected.len() == observed.len(),
        forall|j: int| 0 <= j < expected.len() ==> (#[trigger] observed[j]).present
            && observed[j].size == expected[j].size && observed[j].sha256@ == expected[j].sha256@,
    ensures
        missing_paths(expected, observed, n).len() == 0,
        changed_paths(expected, observed, n).len() == 0,
    decreases n,
{
    if n > 0 {
        assert(observed[n - 1].present);
        lemma_unchanged_prefix(expected, observed, n - 1);
    }
}

/// A root whose every snapshot file is still present with its recorded size
/// and hash compares equal: a faithful restore passes the round-trip check.
pub proof fn lemma_restored_root_compares_equal(expected: Seq<FileDigest>, observed: Seq<ObservedFile>)
    requires
        expected.len() == observed.len(),
        forall|j: int| 0 <= j < expected.len() ==> (#[trigger] observed[j]).present
            && observed[j].size == expected[j].size && observed[j].sha256@ == expected[j].sha256@,
    ensures
        missing_paths(expected, observed, expected.len() as int).len() == 0,
        changed_paths(expected, observed, expected.len() as int).len() == 0,
{
    lemma_unchanged_prefix(expected, observed, expected.len() as int);
}

/// A snapshot compared against files that hold, byte for byte, what was
/// snapshotted compares equal: each file's size and SHA-256 are those of the
/// same bytes.
pub proof fn lemma_identical_bytes_compare_equal(
    expected: Seq<FileDigest>,
    snapshot: Seq<Seq<u8>>,
    restored: Seq<Seq<u8>>,
    observed: Seq<ObservedFile>,
)
    requires
        expected.len() == snapshot.len(),
        restored.len() == snapshot.len(),
        observed.len() == snapshot.len(),
        forall|j: int| 0 <= j < expected.len() ==> {
            &&& (#[trigger] expected[j]).size == snapshot[j].len()
            &&& expected[j].sha256@ == hex_text(sha256_of(snapshot[j]))
        },
        forall|j: int| 0 <= j < observed.len() ==> {
            &&& (#[trigger] observed[j]).present
            &&& observed[j].size == restored[j].len()
            &&& observed[j].sha256@ == hex_text(sha256_of(restored[j]))
        },
        forall|j: int| 0 <= j < restored.len() ==> #[trigger] restored[j] == snapshot[j],
    ensures
        missing_paths(expected, observed, expected.len() as int).len() == 0,
        changed_paths(expected, observed, expected.len() as int).len() == 0,
{
    assert forall|j: int| 0 <= j < expected.len() implies (#[trigger] observed[j]).present
        && observed[j].size == expected[j].size && observed[j].sha256@ == expected[j].sha256@ by {
        assert(restored[j] == snapshot[j]);
        assert(expected[j].size == snapshot[j].len());
    }
    lemma_unchanged_prefix(expected, observed, expected.len() as int);
}

} // verus!
