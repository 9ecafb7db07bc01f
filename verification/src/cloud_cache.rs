//! The verified download cache for cloud packages and catalogs, the download
//! checks and retry, and the diagnostic log's text.

use vstd::prelude::*;
use vstd::utf8::{decode_utf8, valid_utf8};
use crate::install::{hex_text, sha256_hex_of_text, sha256_of};
use crate::install_plan::MAX_ARCHIVE_BYTES;
use crate::journal::PathKind;
use crate::order::{insertion_sort, is_sorted, ListOrder};
use crate::paths::{join_path, join_path_exec};
use crate::restore::Probe;
use crate::text::{
    chars_eq, chars_of, concat_chars, decimal, decimal_exec, ends_with, ends_with_exec, is_hex_digit, is_hex_digit_exec,
    occurs_at, occurs_at_exec, owned, string_from_chars,
};

verus! {

// ----------------------------------------------------------------------
// Cache names
// ----------------------------------------------------------------------

/// `cloud_cache_key`: the SHA-256 (lower-case hex) of a catalog source.
pub fn cloud_cache_key(value: &str) -> (r: String)
    ensures
        r@ == hex_text(sha256_of(vstd::utf8::encode_utf8(value@))),
{
    sha256_hex_of_text(value)
}

/// Where a catalog source's cached copy lies in the catalog cache directory.
pub fn catalog_cache_path(directory: &str, source: &str) -> (r: String)
    ensures
        r@ == join_path(directory@, hex_text(sha256_of(vstd::utf8::encode_utf8(source@))) + ".json"@),
{
    let name = concat_chars(&chars_of(cloud_cache_key(source).as_str()), &chars_of(".json"));
    string_from_chars(&join_path_exec(&chars_of(directory), &name))
}

/// Where the archive with a given SHA-256 lies in the archive cache directory.
pub fn archive_cache_path(directory: &str, expected_sha256: &str) -> (r: String)
    ensures
        r@ == join_path(directory@, expected_sha256@ + ".zip"@),
{
    let name = concat_chars(&chars_of(expected_sha256), &chars_of(".zip"));
    string_from_chars(&join_path_exec(&chars_of(directory), &name))
}

// ----------------------------------------------------------------------
// Cached copies
// ----------------------------------------------------------------------

pub open spec fn irregular_cache_entry_error() -> Seq<char> {
    "CCM archive cache entry is not a regular file."@
}

/// `cached_archive_matches`: a cached archive is used only when it is a
/// regular file of the catalog's size and SHA-256. `sha256` is the hash of
/// the cached file, read only when its size matches.
pub open spec fn cached_match_outcome(
    probe: Probe,
    size: u64,
    sha256: Option<Result<String, String>>,
    expected_sha256: Seq<char>,
    expected_size: u64,
) -> Result<bool, Seq<char>> {
    match probe {
        Probe::Missing => Ok(false),
        Probe::Failed(e) => Err(e@),
        Probe::Found(k) => if k != PathKind::File {
            Err(irregular_cache_entry_error())
        } else if size != expected_size {
            Ok(false)
        } else {
            match sha256 {
                Some(Ok(h)) => Ok(h@ == expected_sha256),
                Some(Err(e)) => Err(e@),
                None => Ok(false),
            }
        },
    }
}

/// Whether the archive cache already holds the package.
pub fn cached_archive_matches(
    probe: &Probe,
    size: u64,
    sha256: &Option<Result<String, String>>,
    expected_sha256: &str,
    expected_size: u64,
) -> (r: Result<bool, String>)
    requires
        (*probe == Probe::Found(PathKind::File) && size == expected_size) ==> sha256 is Some,
    ensures
        match r {
            Ok(b) => cached_match_outcome(*probe, size, *sha256, expected_sha256@, expected_size) == Ok::<bool, Seq<char>>(b),
            Err(e) => cached_match_outcome(*probe, size, *sha256, expected_sha256@, expected_size) == Err::<bool, Seq<char>>(
                e@,
            ),
        },
{
    match probe {
        Probe::Missing => Ok(false),
        Probe::Failed(e) => Err(e.clone()),
        Probe::Found(PathKind::File) => {
            if size != expected_size {
                return Ok(false);
            }
            match sha256 {
                Some(Ok(h)) => Ok(chars_eq(&chars_of(h.as_str()), &chars_of(expected_sha256))),
                Some(Err(e)) => Err(e.clone()),
                None => Ok(false),
            }
        },
        Probe::Found(_) => Err(owned("CCM archive cache entry is not a regular file.")),
    }
}

pub open spec fn no_cached_catalog_error() -> Seq<char> {
    "No cached cloud catalog is available."@
}

pub open spec fn invalid_cached_catalog_error() -> Seq<char> {
    "Cached cloud catalog is invalid."@
}

/// `read_cached_catalog` before reading: the copy must be a regular file no
/// larger than `max_size`.
pub open spec fn cached_catalog_outcome(probe: Probe, size: u64, max_size: u64) -> Result<(), Seq<char>> {
    match probe {
        Probe::Found(k) => if k != PathKind::File || size > max_size {
            Err(invalid_cached_catalog_error())
        } else {
            Ok(())
        },
        _ => Err(no_cached_catalog_error()),
    }
}

pub fn check_cached_catalog(probe: &Probe, size: u64, max_size: u64) -> (r: Result<(), String>)
    ensures
        match r {
            Ok(()) => cached_catalog_outcome(*probe, size, max_size) is Ok,
            Err(e) => cached_catalog_outcome(*probe, size, max_size) == Err::<(), Seq<char>>(e@),
        },
{
    match probe {
        Probe::Found(PathKind::File) => if size > max_size {
            Err(owned("Cached cloud catalog is invalid."))
        } else {
            Ok(())
        },
        Probe::Found(_) => Err(owned("Cached cloud catalog is invalid.")),
        _ => Err(owned("No cached cloud catalog is available.")),
    }
}

/// The text of a cached catalog, which must be UTF-8.
pub fn cached_catalog_text(bytes: &[u8]) -> (r: Result<String, String>)
    ensures
        (r is Ok) <==> valid_utf8(bytes@),
        r matches Ok(t) ==> t@ == decode_utf8(bytes@),
        r matches Err(e) ==> e@ == "Cached cloud catalog is not UTF-8 JSON."@,
{
    match crate::metadata::string_from_utf8(bytes) {
        Some(t) => Ok(t),
        None => Err(owned("Cached cloud catalog is not UTF-8 JSON.")),
    }
}

// ----------------------------------------------------------------------
// Downloads
// ----------------------------------------------------------------------

/// Why one download attempt failed: a retry may help, or it cannot.
#[derive(Debug, Clone, PartialEq, Eq)]
pub enum CloudDownloadFailure {
    Retryable(String),
    Permanent(String),
}

impl CloudDownloadFailure {
    /// The failure's message.
    pub fn into_message(self) -> (r: String)
        ensures
            r == match self {
                CloudDownloadFailure::Retryable(m) => m,
                CloudDownloadFailure::Permanent(m) => m,
            },
    {
        match self {
            CloudDownloadFailure::Retryable(m) => m,
            CloudDownloadFailure::Permanent(m) => m,
        }
    }
}

pub open spec fn too_large_download_error() -> Seq<char> {
    "Package is larger than the allowed download size."@
}

pub open spec fn size_mismatch_error() -> Seq<char> {
    "The package size does not match the catalog entry. No files were changed."@
}

pub open spec fn hash_mismatch_error() -> Seq<char> {
    "The downloaded archive does not match the catalog SHA-256. Installation stopped."@
}

pub open spec fn irregular_cache_destination_error() -> Seq<char> {
    "CCM archive cache destination is not a regular file."@
}

/// A package larger than an install may be is never downloaded.
pub fn check_download_size(expected_size: u64) -> (r: Result<(), String>)
    ensures
        (r is Ok) <==> expected_size <= MAX_ARCHIVE_BYTES,
        r matches Err(e) ==> e@ == too_large_download_error(),
{
    if expected_size > MAX_ARCHIVE_BYTES {
        return Err(owned("Package is larger than the allowed download size."));
    }
    Ok(())
}

/// A response that announces another size than the catalog's is refused.
pub fn check_content_length(content_length: Option<u64>, expected_size: u64) -> (r: Result<(), CloudDownloadFailure>)
    ensures
        (r is Ok) <==> (content_length is None || content_length == Some(expected_size)),
        r matches Err(f) ==> f matches CloudDownloadFailure::Permanent(m) && m@ == size_mismatch_error(),
{
    match content_length {
        Some(size) => if size != expected_size {
            Err(
                CloudDownloadFailure::Permanent(
                    owned("The package size does not match the catalog entry. No files were changed."),
                ),
            )
        } else {
            Ok(())
        },
        None => Ok(()),
    }
}

/// The bytes received so far after another chunk (saturating); more than an
/// install may hold stops the download.
pub fn add_download_chunk(copied: u64, read: u64) -> (r: Result<u64, CloudDownloadFailure>)
    ensures
        ({
            let total: int = if copied + read > u64::MAX {
                u64::MAX as int
            } else {
                copied + read
            };
            &&& (r is Ok) <==> total <= MAX_ARCHIVE_BYTES
            &&& r matches Ok(t) ==> t == total
            &&& r matches Err(f) ==> f matches CloudDownloadFailure::Permanent(m) && m@ == too_large_download_error()
        }),
{
    let total = copied.saturating_add(read);
    if total > MAX_ARCHIVE_BYTES {
        return Err(CloudDownloadFailure::Permanent(owned("Package is larger than the allowed download size.")));
    }
    Ok(total)
}

/// The checks after the last chunk: the exact size, the catalog SHA-256, and
/// a cache destination that is a regular file if anything stands there
/// (`None` when its metadata could not be read).
pub open spec fn finish_outcome(
    copied: u64,
    expected_size: u64,
    sha256: Seq<char>,
    expected_sha256: Seq<char>,
    destination: Option<PathKind>,
) -> Option<Seq<char>> {
    if copied != expected_size {
        Some(size_mismatch_error())
    } else if sha256 != expected_sha256 {
        Some(hash_mismatch_error())
    } else {
        match destination {
            Some(k) => if k != PathKind::File {
                Some(irregular_cache_destination_error())
            } else {
                None
            },
            None => None,
        }
    }
}

pub fn finish_download(
    copied: u64,
    expected_size: u64,
    sha256: &str,
    expected_sha256: &str,
    destination: Option<PathKind>,
) -> (r: Result<(), CloudDownloadFailure>)
    ensures
        match r {
            Ok(()) => finish_outcome(copied, expected_size, sha256@, expected_sha256@, destination) is None,
            Err(f) => f matches CloudDownloadFailure::Permanent(m) && finish_outcome(
                copied,
                expected_size,
                sha256@,
                expected_sha256@,
                destination,
            ) == Some(m@),
        },
{
    if copied != expected_size {
        return Err(
            CloudDownloadFailure::Permanent(owned("The package size does not match the catalog entry. No files were changed.")),
        );
    }
    if !chars_eq(&chars_of(sha256), &chars_of(expected_sha256)) {
        return Err(
            CloudDownloadFailure::Permanent(
                owned("The downloaded archive does not match the catalog SHA-256. Installation stopped."),
            ),
        );
    }
    match destination {
        Some(PathKind::File) => Ok(()),
        Some(_) => Err(CloudDownloadFailure::Permanent(owned("CCM archive cache destination is not a regular file."))),
        None => Ok(()),
    }
}

/// What `cache_remote_archive` does after download attempt `attempt`.
#[derive(Debug, Clone, PartialEq, Eq)]
pub enum AttemptNext {
    /// The archive is in the cache.
    Done,
    /// Try again, logging why.
    Retry(String),
    /// Give up with this message.
    Fail(String),
}

/// The first attempt may be retried once after a retryable failure; every
/// other failure ends the download with its message.
pub fn after_attempt(attempt: u32, outcome: Result<(), CloudDownloadFailure>) -> (r: AttemptNext)
    requires
        1 <= attempt <= 2,
    ensures
        match outcome {
            Ok(()) => r == AttemptNext::Done,
            Err(CloudDownloadFailure::Retryable(m)) => if attempt == 1 {
                r matches AttemptNext::Retry(x) && x@ == "download retry scheduled: "@ + m@
            } else {
                r matches AttemptNext::Fail(x) && x@ == m@
            },
            Err(CloudDownloadFailure::Permanent(m)) => r matches AttemptNext::Fail(x) && x@ == m@,
        },
{
    match outcome {
        Ok(()) => AttemptNext::Done,
        Err(CloudDownloadFailure::Retryable(m)) => if attempt == 1 {
            AttemptNext::Retry(string_from_chars(&concat_chars(&chars_of("download retry scheduled: "), &chars_of(m.as_str()))))
        } else {
            AttemptNext::Fail(m)
        },
        Err(CloudDownloadFailure::Permanent(m)) => AttemptNext::Fail(m),
    }
}

/// The progress status shown before download attempt `attempt`.
pub fn attempt_status(attempt: u32) -> (r: (String, String))
    ensures
        r.0@ == "downloading"@,
        attempt == 1 ==> r.1@ == "Downloading package from cloud…"@,
        attempt != 1 ==> r.1@ == "Connection was interrupted; retrying download (2/2)…"@,
{
    if attempt == 1 {
        (owned("downloading"), owned("Downloading package from cloud…"))
    } else {
        (owned("downloading"), owned("Connection was interrupted; retrying download (2/2)…"))
    }
}

// ----------------------------------------------------------------------
// Pruning the archive cache
// ----------------------------------------------------------------------

/// The most the archive cache keeps: 3 GiB.
pub const CLOUD_ARCHIVE_CACHE_LIMIT: u64 = 3221225472;

/// A file in the archive cache.
#[derive(Debug, Clone, PartialEq, Eq)]
pub struct CacheEntry {
    pub name: String,
    /// Its modification time as (seconds, nanoseconds) since the Unix epoch,
    /// when known.
    pub modified: Option<(u64, u32)>,
    pub size: u64,
    pub path: String,
}

/// A cached archive's name: 64 hexadecimal digits and `.zip`.
pub open spec fn is_cache_archive_name(name: Seq<char>) -> bool {
    &&& name.len() == 68
    &&& ends_with(name, ".zip"@)
    &&& forall|i: int| 0 <= i < 64 ==> is_hex_digit(#[trigger] name[i])
}

pub fn is_cache_archive_name_exec(name: &str) -> (r: bool)
    ensures
        r == is_cache_archive_name(name@),
{
    let n = chars_of(name);
    if n.len() != 68 || !ends_with_exec(&n, &chars_of(".zip")) {
        return false;
    }
    let mut i: usize = 0;
    while i < 64
        invariant
            n@ == name@,
            n@.len() == 68,
            i <= 64,
            forall|j: int| 0 <= j < i ==> is_hex_digit(#[trigger] n@[j]),
        decreases 64 - i,
    {
        if !is_hex_digit_exec(n[i]) {
            return false;
        }
        i = i + 1;
    }
    true
}

/// Older entries first; an entry without a known time before any with one.
pub open spec fn time_lt(a: Option<(u64, u32)>, b: Option<(u64, u32)>) -> bool {
    match (a, b) {
        (None, Some(_)) => true,
        (Some(x), Some(y)) => x.0 < y.0 || (x.0 == y.0 && x.1 < y.1),
        _ => false,
    }
}

impl ListOrder for CacheEntry {
    open spec fn precedes(a: Self, b: Self) -> bool {
        time_lt(a.modified, b.modified)
    }

    proof fn lemma_order(a: Self, b: Self, c: Self) {
    }

    fn precedes_exec(a: &Self, b: &Self) -> (r: bool) {
        match (a.modified, b.modified) {
            (None, Some(_)) => true,
            (Some(x), Some(y)) => x.0 < y.0 || (x.0 == y.0 && x.1 < y.1),
            _ => false,
        }
    }
}

/// The archives a prune may remove, oldest first, and their total size.
#[derive(Debug, Clone, PartialEq, Eq)]
pub struct PruneCandidates {
    pub entries: Vec<CacheEntry>,
    /// The sum of their sizes (saturating).
    pub total: u64,
}

/// The sum of the sizes, saturating at `u64::MAX`.
pub open spec fn size_total(es: Seq<CacheEntry>) -> int
    decreases es.len(),
{
    if es.len() == 0 {
        0
    } else {
        let t = size_total(es.drop_last()) + es.last().size;
        if t > u64::MAX {
            u64::MAX as int
        } else {
            t
        }
    }
}

pub open spec fn valid_entries(es: Seq<CacheEntry>) -> Seq<CacheEntry> {
    es.filter(|e: CacheEntry| is_cache_archive_name(e.name@))
}

/// `prune_archive_cache` before removing anything: the files whose names
/// are cached archives, sorted by modification time, and their total size.
pub fn prune_candidates(entries: Vec<CacheEntry>) -> (r: PruneCandidates)
    ensures
        r.entries@.to_multiset() == valid_entries(entries@).to_multiset(),
        is_sorted(r.entries@),
        r.total == size_total(valid_entries(entries@)),
{
    let ghost all = entries@;
    let mut kept: Vec<CacheEntry> = Vec::new();
    let mut total: u64 = 0;
    let mut rest = entries;
    let mut rev: Vec<CacheEntry> = Vec::new();
    while rest.len() > 0
        invariant
            all.len() == rest@.len() + rev@.len(),
            forall|k: int| 0 <= k < rest@.len() ==> #[trigger] rest@[k] == all[k],
            forall|k: int| 0 <= k < rev@.len() ==> #[trigger] rev@[k] == all[all.len() - 1 - k],
        decreases rest.len(),
    {
        let x = rest.pop().unwrap();
        rev.push(x);
    }
    let mut k: usize = rev.len();
    assert(k == all.len());
    while k > 0
        invariant
            k <= all.len(),
            rev@.len() == k,
            forall|j: int| 0 <= j < k ==> #[trigger] rev@[j] == all[all.len() - 1 - j],
            kept@ == valid_entries(all.take(all.len() - k)),
            total == size_total(kept@),
        decreases k,
    {
        let x = rev.pop().unwrap();
        let ghost i = all.len() - k;
        proof {
            assert(x == all[i]);
            assert(all.take(i + 1) =~= all.take(i).push(x));
            all.take(i).lemma_filter_push(x, |e: CacheEntry| is_cache_archive_name(e.name@));
        }
        if is_cache_archive_name_exec(x.name.as_str()) {
            let ghost before = kept@;
            total = total.saturating_add(x.size);
            kept.push(x);
            proof {
                assert(kept@.drop_last() =~= before);
            }
        }
        k = k - 1;
    }
    proof {
        assert(all.take(all.len() as int) =~= all);
        kept@.to_multiset_ensures();
    }
    let ghost unsorted = kept@;
    insertion_sort(kept.as_mut_slice());
    PruneCandidates { entries: kept, total }
}

/// What a prune does with the next candidate.
#[derive(Debug, Clone, Copy, PartialEq, Eq)]
pub enum PruneStep {
    /// The cache is small enough: stop.
    Stop,
    /// Remove this archive (and, if that works, count its size off).
    Remove,
    /// Keep it: it is the archive just downloaded.
    Keep,
}

/// Oldest archives go first until the cache fits its limit; the archive
/// just downloaded always stays.
pub fn prune_step(total: u64, candidate: &str, keep: &str) -> (r: PruneStep)
    ensures
        total <= CLOUD_ARCHIVE_CACHE_LIMIT ==> r == PruneStep::Stop,
        total > CLOUD_ARCHIVE_CACHE_LIMIT && candidate@ == keep@ ==> r == PruneStep::Keep,
        total > CLOUD_ARCHIVE_CACHE_LIMIT && candidate@ != keep@ ==> r == PruneStep::Remove,
{
    if total <= CLOUD_ARCHIVE_CACHE_LIMIT {
        PruneStep::Stop
    } else if chars_eq(&chars_of(candidate), &chars_of(keep)) {
        PruneStep::Keep
    } else {
        PruneStep::Remove
    }
}

/// The cache total after a removal that worked (saturating).
pub fn after_removal(total: u64, size: u64) -> (r: u64)
    ensures
        r == if total >= size {
            (total - size) as u64
        } else {
            0u64
        },
{
    total.saturating_sub(size)
}

// ----------------------------------------------------------------------
// The diagnostic log
// ----------------------------------------------------------------------

/// A log file grows to 1,000,000 bytes before it is rotated.
pub const DIAGNOSTIC_LOG_LIMIT: u64 = 1000000;

/// Line breaks become spaces, so that one entry is one line.
pub open spec fn one_line(s: Seq<char>) -> Seq<char> {
    s.map_values(|c: char| if c == '\r' || c == '\n' { ' ' } else { c })
}

fn one_line_exec(s: &[char]) -> (r: Vec<char>)
    ensures
        r@ == one_line(s@),
{
    let mut out: Vec<char> = Vec::new();
    let mut i: usize = 0;
    while i < s.len()
        invariant
            i <= s@.len(),
            out@ == one_line(s@.take(i as int)),
        decreases s.len() - i,
    {
        let c = s[i];
        out.push(if c == '\r' || c == '\n' { ' ' } else { c });
        proof {
            assert(one_line(s@.take(i as int + 1)) =~= one_line(s@.take(i as int)).push(
                if c == '\r' || c == '\n' { ' ' } else { c },
            ));
        }
        i = i + 1;
    }
    proof {
        assert(s@.take(i as int) =~= s@);
    }
    out
}

/// `str::replace` from position `i` on: each occurrence of `pat`, scanning
/// left to right without overlap, becomes `rep`.
pub open spec fn replace_from(s: Seq<char>, pat: Seq<char>, rep: Seq<char>, i: int) -> Seq<char>
    decreases s.len() - i,
{
    if i < 0 || i >= s.len() {
        Seq::empty()
    } else if pat.len() > 0 && occurs_at(s, pat, i) {
        rep + replace_from(s, pat, rep, i + pat.len())
    } else {
        seq![s[i]] + replace_from(s, pat, rep, i + 1)
    }
}

fn replace_all(s: &[char], pat: &[char], rep: &[char]) -> (r: Vec<char>)
    requires
        pat@.len() > 0,
    ensures
        r@ == replace_from(s@, pat@, rep@, 0),
{
    let mut out: Vec<char> = Vec::new();
    let mut i: usize = 0;
    while i < s.len()
        invariant
            i <= s@.len(),
            pat@.len() > 0,
            replace_from(s@, pat@, rep@, 0) == out@ + replace_from(s@, pat@, rep@, i as int),
        decreases s.len() - i,
    {
        let ghost before = out@;
        if occurs_at_exec(s, pat, i) {
            out = concat_chars(&out, rep);
            proof {
                let rest = replace_from(s@, pat@, rep@, i + pat@.len());
                assert(before + (rep@ + rest) =~= (before + rep@) + rest);
            }
            i = i + pat.len();
        } else {
            out.push(s[i]);
            proof {
                let rest = replace_from(s@, pat@, rep@, i + 1);
                assert(before + (seq![s@[i as int]] + rest) =~= before.push(s@[i as int]) + rest);
            }
            i = i + 1;
        }
    }
    proof {
        assert(out@ + Seq::<char>::empty() =~= out@);
    }
    out
}

/// `redact_diagnostic_value` with the home directories to hide (the values
/// of `HOME` and `USERPROFILE`, in that order, where set).
pub open spec fn redacted_from(s: Seq<char>, homes: Seq<Seq<char>>, k: int) -> Seq<char>
    decreases k,
{
    if k <= 0 {
        s
    } else {
        let prev = redacted_from(s, homes, k - 1);
        if homes[k - 1].len() > 0 {
            replace_from(prev, homes[k - 1], "~"@, 0)
        } else {
            prev
        }
    }
}

/// Line breaks become spaces and each non-empty home directory becomes `~`.
pub fn redact_diagnostic_value(value: &str, homes: &[String]) -> (r: String)
    ensures
        r@ == redacted_from(one_line(value@), crate::text::views(homes@), homes@.len() as int),
{
    let ghost hv = crate::text::views(homes@);
    let mut cur = one_line_exec(&chars_of(value));
    let mut k: usize = 0;
    while k < homes.len()
        invariant
            k <= homes@.len(),
            hv == crate::text::views(homes@),
            cur@ == redacted_from(one_line(value@), hv, k as int),
        decreases homes.len() - k,
    {
        let h = chars_of(homes[k].as_str());
        proof {
            assert(hv[k as int] == h@);
        }
        if h.len() > 0 {
            cur = replace_all(&cur, &h, &chars_of("~"));
        }
        k = k + 1;
    }
    string_from_chars(&cur)
}

/// The line a log entry becomes: its timestamp, a space, and the entry on one line.
pub fn diagnostic_line(timestamp: u64, entry: &str) -> (r: String)
    ensures
        r@ == decimal(timestamp as nat) + " "@ + one_line(entry@),
{
    let t = decimal_exec(timestamp);
    let mut head = t;
    head.push(' ');
    proof {
        reveal_strlit(" ");
        assert(head@ =~= decimal(timestamp as nat) + " "@);
    }
    string_from_chars(&concat_chars(&head, &one_line_exec(&chars_of(entry))))
}

/// A log of at least `DIAGNOSTIC_LOG_LIMIT` bytes is rotated before the next entry.
pub fn log_needs_rotation(size: u64) -> (r: bool)
    ensures
        r == (size >= DIAGNOSTIC_LOG_LIMIT),
{
    size >= DIAGNOSTIC_LOG_LIMIT
}

/// `ccm-reborn.log`, or its generation `g` (`ccm-reborn.log.<g>`), in `directory`.
pub open spec fn log_generation(directory: Seq<char>, g: nat) -> Seq<char> {
    if g == 0 {
        join_path(directory, "ccm-reborn.log"@)
    } else {
        join_path(directory, "ccm-reborn.log."@ + decimal(g))
    }
}

fn log_generation_exec(directory: &[char], g: u64) -> (r: Vec<char>)
    ensures
        r@ == log_generation(directory@, g as nat),
{
    if g == 0 {
        join_path_exec(directory, &chars_of("ccm-reborn.log"))
    } else {
        join_path_exec(directory, &concat_chars(&chars_of("ccm-reborn.log."), &decimal_exec(g)))
    }
}

/// The renames of a log rotation, in order: generation 3 to 4, 2 to 3, 1
/// to 2, and the live log to 1 (each target removed first).
pub fn log_rotation(directory: &str) -> (r: Vec<(String, String)>)
    ensures
        r@.len() == 4,
        forall|i: int|
            0 <= i < 4 ==> (#[trigger] r@[i]).0@ == log_generation(directory@, (3 - i) as nat) && r@[i].1@
                == log_generation(directory@, (4 - i) as nat),
{
    let d = chars_of(directory);
    let mut out: Vec<(String, String)> = Vec::new();
    let mut g: u64 = 4;
    while g >= 1
        invariant
            1 <= g + 1 <= 5,
            d@ == directory@,
            out@.len() == 4 - g,
            forall|i: int|
                0 <= i < 4 - g ==> (#[trigger] out@[i]).0@ == log_generation(directory@, (3 - i) as nat) && out@[i].1@
                    == log_generation(directory@, (4 - i) as nat),
        decreases g,
    {
        let from = string_from_chars(&log_generation_exec(&d, g - 1));
        let to = string_from_chars(&log_generation_exec(&d, g));
        out.push((from, to));
        g = g - 1;
    }
    out
}

} // verus!
