//! Installing a package: digests and fresh names, the checks on the
//! package's files, the managed state an install records, and what the
//! install undoes when one of its steps fails.

use vstd::prelude::*;
use sha2::Digest;
use crate::paths::{
    campaign_target_wol, components, components_exec, is_wol_owned_asset_directory, is_wol_owned_asset_directory_exec,
    starts_with_components,
};
use crate::profile_core::{InstalledFile, InstalledManifest, INSTALLED_MANIFEST_SCHEMA_VERSION};
use crate::state::{ManagedFile, ManagedState};
use crate::text::{chars_eq, chars_of, concat_chars, owned, starts_with, starts_with_exec, string_from_chars, trim, trim_exec};

verus! {

// ----------------------------------------------------------------------
// Digests and fresh names
// ----------------------------------------------------------------------

/// The SHA-256 digest of a byte sequence, as `sha2` computes it.
pub uninterp spec fn sha256_of(bytes: Seq<u8>) -> Seq<u8>;

/// `Sha256::digest`: the 32-byte digest of the bytes.
#[verifier::external_body]
fn sha256_digest(bytes: &[u8]) -> (r: Vec<u8>)
    ensures
        r@ == sha256_of(bytes@),
        r@.len() == 32,
{
    sha2::Sha256::digest(bytes).to_vec()
}

/// A `sha2::Sha256` hasher. Verus refuses to declare `sha2::Sha256` itself
/// (an alias of a generic wrapper over `typenum` types), so the hasher is
/// held in this opaque struct.
#[verifier::external_body]
pub struct Sha256State(sha2::Sha256);

/// The bytes a hasher has been fed since it was created.
pub uninterp spec fn sha256_input(state: Sha256State) -> Seq<u8>;

/// `Sha256::new`: a hasher that has been fed nothing.
#[verifier::external_body]
fn sha256_new() -> (r: Sha256State)
    ensures
        sha256_input(r) == Seq::<u8>::empty(),
{
    Sha256State(sha2::Sha256::new())
}

/// `Digest::update`: feeds the hasher one more chunk, after those before.
#[verifier::external_body]
fn sha256_update(state: &mut Sha256State, chunk: &[u8])
    ensures
        sha256_input(*final(state)) == sha256_input(*old(state)) + chunk@,
{
    state.0.update(chunk)
}

/// `Digest::finalize`: the digest of everything the hasher was fed, the same
/// as `Sha256::digest` of those bytes at once.
#[verifier::external_body]
fn sha256_finalize(state: Sha256State) -> (r: Vec<u8>)
    ensures
        r@ == sha256_of(sha256_input(state)),
{
    state.0.finalize().to_vec()
}

/// A SHA-256 computed over data that arrives in chunks (a file or a
/// download read piece by piece).
pub struct Sha256Stream {
    state: Sha256State,
}

impl Sha256Stream {
    /// The bytes fed to the stream so far, in order.
    pub closed spec fn absorbed(&self) -> Seq<u8> {
        sha256_input(self.state)
    }

    pub fn new() -> (s: Self)
        ensures
            s.absorbed() == Seq::<u8>::empty(),
    {
        Sha256Stream { state: sha256_new() }
    }

    /// Feeds the next chunk.
    pub fn update(&mut self, chunk: &[u8])
        ensures
            final(self).absorbed() == old(self).absorbed() + chunk@,
    {
        sha256_update(&mut self.state, chunk);
    }

    /// The lower-case hexadecimal SHA-256 of every byte fed, in order.
    pub fn finish_hex(self) -> (r: String)
        ensures
            r@ == hex_text(sha256_of(self.absorbed())),
    {
        let digest = sha256_finalize(self.state);
        hex_encode(digest.as_slice())
    }
}

pub open spec fn hex_digit(n: u8) -> char {
    if n < 10 {
        (('0' as u8) + n) as char
    } else {
        (('a' as u8) + (n - 10)) as char
    }
}

/// Lower-case hexadecimal, two digits per byte.
pub open spec fn hex_text(bytes: Seq<u8>) -> Seq<char>
    decreases bytes.len(),
{
    if bytes.len() == 0 {
        Seq::empty()
    } else {
        hex_text(bytes.drop_last()) + seq![hex_digit(bytes.last() / 16), hex_digit(bytes.last() % 16)]
    }
}

/// `hex::encode`: each byte as two lower-case hexadecimal digits.
#[verifier::external_body]
fn hex_encode(bytes: &[u8]) -> (r: String)
    ensures
        r@ == hex_text(bytes@),
{
    hex::encode(bytes)
}

/// The SHA-256 of a text's UTF-8 bytes, in lower-case hexadecimal.
pub fn sha256_hex_of_text(text: &str) -> (r: String)
    ensures
        r@ == hex_text(sha256_of(vstd::utf8::encode_utf8(text@))),
{
    let digest = sha256_digest(text.as_bytes());
    hex_encode(digest.as_slice())
}

/// The SHA-256 of bytes, in lower-case hexadecimal.
pub fn sha256_hex_of_bytes(bytes: &[u8]) -> (r: String)
    ensures
        r@ == hex_text(sha256_of(bytes@)),
{
    let digest = sha256_digest(bytes);
    hex_encode(digest.as_slice())
}

proof fn lemma_hex_text_len(bytes: Seq<u8>)
    ensures
        hex_text(bytes).len() == 2 * bytes.len(),
    decreases bytes.len(),
{
    if bytes.len() > 0 {
        lemma_hex_text_len(bytes.drop_last());
    }
}

/// The key of an account's profile store: the SHA-256 of its canonical
/// profile path, which is sixty-four hexadecimal digits.
pub fn profile_store_key(canonical_profile: &str) -> (r: String)
    ensures
        r@ == hex_text(sha256_of(vstd::utf8::encode_utf8(canonical_profile@))),
        r@.len() == 64,
{
    let digest = sha256_digest(canonical_profile.as_bytes());
    proof {
        lemma_hex_text_len(digest@);
    }
    hex_encode(digest.as_slice())
}

/// A lower-case hexadecimal digit.
pub open spec fn is_lower_hex(c: char) -> bool {
    ('0' <= c && c <= '9') || ('a' <= c && c <= 'f')
}

/// The hyphenated text of a version-4 UUID: 8-4-4-4-12 lower-case hex
/// digits, with the version digit `4`.
pub open spec fn is_uuid_text(u: Seq<char>) -> bool {
    &&& u.len() == 36
    &&& forall|i: int|
        0 <= i < 36 ==> if i == 8 || i == 13 || i == 18 || i == 23 {
            #[trigger] u[i] == '-'
        } else {
            is_lower_hex(u[i])
        }
    &&& u[14] == '4'
}

/// `Uuid::new_v4().to_string()`: a random version-4 UUID in its hyphenated,
/// lower-case form.
#[verifier::external_body]
pub(crate) fn new_uuid() -> (r: String)
    ensures
        is_uuid_text(r@),
{
    uuid::Uuid::new_v4().to_string()
}

/// `backups/<campaign>-<uuid>`.
pub open spec fn backup_dir_spec(campaign_id: Seq<char>, uuid: Seq<char>) -> Seq<char> {
    "backups/"@ + campaign_id + "-"@ + uuid
}

/// The backup directory of an install, for a given UUID.
pub fn backup_dir_name(campaign_id: &str, uuid: &str) -> (r: String)
    ensures
        r@ == backup_dir_spec(campaign_id@, uuid@),
{
    let m = concat_chars(&concat_chars(&chars_of("backups/"), &chars_of(campaign_id)), &chars_of("-"));
    string_from_chars(&concat_chars(&m, &chars_of(uuid)))
}

/// A fresh backup directory for an install: `backups/<campaign>-<uuid>`
/// with a new random UUID.
pub fn new_backup_dir(campaign_id: &str) -> (r: String)
    ensures
        exists|u: Seq<char>| is_uuid_text(u) && r@ == backup_dir_spec(campaign_id@, u),
{
    let u = new_uuid();
    backup_dir_name(campaign_id, u.as_str())
}

/// A fresh operation ID (a random UUID) for a dry run.
pub fn new_operation_id() -> (r: String)
    ensures
        is_uuid_text(r@),
{
    new_uuid()
}

// ----------------------------------------------------------------------
// Package files
// ----------------------------------------------------------------------

/// The most entries a package archive may have.
pub const MAX_ARCHIVE_ENTRIES: usize = 100000;

/// The largest single file a package may hold.
pub const MAX_FILE_BYTES: u64 = 536870912;

/// Refuses an archive with more entries than CCM reads.
pub fn validate_archive_entry_count(entries: usize) -> (r: Result<(), String>)
    ensures
        r is Ok <==> entries <= MAX_ARCHIVE_ENTRIES,
        r matches Err(e) ==> e@ == "Package has too many ZIP entries."@,
{
    if entries > MAX_ARCHIVE_ENTRIES {
        return Err(owned("Package has too many ZIP entries."));
    }
    Ok(())
}

/// A package member larger than a single file may be is refused.
pub fn check_member_size(name: &str, size: u64) -> (r: Result<(), String>)
    ensures
        r is Ok <==> size <= MAX_FILE_BYTES,
        r matches Err(e) ==> e@ == "Package file "@ + name@ + " is too large."@,
{
    if size > MAX_FILE_BYTES {
        let m = concat_chars(&chars_of("Package file "), &chars_of(name));
        return Err(string_from_chars(&concat_chars(&m, &chars_of(" is too large."))));
    }
    Ok(())
}

/// The running total of an extraction: it saturates, and may not pass the
/// archive limit.
pub fn add_extracted_size(total: u64, size: u64) -> (r: Result<u64, String>)
    ensures
        match r {
            Ok(t) => t == (if total + size > u64::MAX { u64::MAX as int } else { total + size }) && t
                <= crate::install_plan::MAX_ARCHIVE_BYTES,
            Err(e) => (if total + size > u64::MAX { u64::MAX as int } else { total + size })
                > crate::install_plan::MAX_ARCHIVE_BYTES && e@ == "Package expands beyond the allowed size."@,
        },
{
    let t = total.saturating_add(size);
    if t > crate::install_plan::MAX_ARCHIVE_BYTES {
        return Err(owned("Package expands beyond the allowed size."));
    }
    Ok(t)
}

/// A package must have a file besides its `metadata.txt`.
pub fn check_package_not_empty(files: usize) -> (r: Result<(), String>)
    ensures
        r is Ok <==> files > 0,
        r matches Err(e) ==> e@ == "CCM package contains no files alongside metadata.txt."@,
{
    if files == 0 {
        return Err(owned("CCM package contains no files alongside metadata.txt."));
    }
    Ok(())
}

/// A WoL destination nested below `Maps/Campaign` outside a `.SC2Map` or
/// `.SC2Mod` folder, where it could land in another branch's directory.
pub open spec fn ambiguous_wol_destination(destination: Seq<char>) -> bool {
    let d = components(destination);
    let t = components(campaign_target_wol());
    starts_with_components(d, t) && d.len() > t.len() + 1 && !is_wol_owned_asset_directory(d[t.len() as int])
}

/// A planned package file: its archive member and its game destination.
#[derive(Debug, Clone, PartialEq, Eq)]
pub struct PackageFilePlan {
    pub source: String,
    pub destination: String,
    pub size: u64,
}

pub open spec fn first_ambiguous(files: Seq<PackageFilePlan>, i: int) -> int
    decreases files.len() - i,
{
    if i < 0 || i >= files.len() {
        -1
    } else if ambiguous_wol_destination(files[i].destination@) {
        i
    } else {
        first_ambiguous(files, i + 1)
    }
}

pub open spec fn nested_wol_error(source: Seq<char>) -> Seq<char> {
    "WoL package file "@ + source
        + " targets an ambiguous nested Maps/Campaign directory. Nested assets must live inside a .SC2Map or .SC2Mod directory so CCM cannot overwrite another campaign branch."@
}

fn ambiguous_wol_destination_exec(destination: &str) -> (r: bool)
    ensures
        r == ambiguous_wol_destination(destination@),
{
    let d = components_exec(&chars_of(destination));
    let t = components_exec(&chars_of("Maps/Campaign"));
    proof {
        assert(d@.map_values(|l: Vec<char>| l@) =~= components(destination@));
        assert(t@.map_values(|l: Vec<char>| l@) =~= components(campaign_target_wol()));
    }
    if t.len() > d.len() {
        return false;
    }
    let mut i: usize = 0;
    while i < t.len()
        invariant
            i <= t.len() <= d.len(),
            d@.map_values(|l: Vec<char>| l@) == components(destination@),
            t@.map_values(|l: Vec<char>| l@) == components(campaign_target_wol()),
            components(destination@).take(i as int) == components(campaign_target_wol()).take(i as int),
        decreases t.len() - i,
    {
        if !chars_eq(&d[i], &t[i]) {
            proof {
                let dv = components(destination@);
                let tv = components(campaign_target_wol());
                assert(dv.take(tv.len() as int)[i as int] == dv[i as int]);
            }
            return false;
        }
        proof {
            let dv = components(destination@);
            let tv = components(campaign_target_wol());
            assert(dv.take(i as int + 1) =~= dv.take(i as int).push(dv[i as int]));
            assert(tv.take(i as int + 1) =~= tv.take(i as int).push(tv[i as int]));
        }
        i = i + 1;
    }
    proof {
        let tv = components(campaign_target_wol());
        assert(tv.take(tv.len() as int) =~= tv);
    }
    d.len() - t.len() > 1 && !is_wol_owned_asset_directory_exec(&d[t.len()])
}

/// `refuse_nested_wol_package`: a WoL package may not place files in
/// nested directories of `Maps/Campaign` other than map or mod folders.
pub fn refuse_nested_wol_package(target: &str, files: &Vec<PackageFilePlan>) -> (r: Result<(), String>)
    ensures
        match r {
            Ok(_) => target@ != campaign_target_wol() || first_ambiguous(files@, 0) == -1,
            Err(e) => target@ == campaign_target_wol() && first_ambiguous(files@, 0) >= 0 && e@ == nested_wol_error(
                files@[first_ambiguous(files@, 0)].source@,
            ),
        },
{
    if !chars_eq(&chars_of(target), &chars_of("Maps/Campaign")) {
        return Ok(());
    }
    let mut i: usize = 0;
    while i < files.len()
        invariant
            i <= files.len(),
            target@ == campaign_target_wol(),
            first_ambiguous(files@, 0) == first_ambiguous(files@, i as int),
        decreases files.len() - i,
    {
        if ambiguous_wol_destination_exec(files[i].destination.as_str()) {
            let m = concat_chars(&chars_of("WoL package file "), &chars_of(files[i].source.as_str()));
            return Err(string_from_chars(&concat_chars(
                &m,
                &chars_of(
                    " targets an ambiguous nested Maps/Campaign directory. Nested assets must live inside a .SC2Map or .SC2Mod directory so CCM cannot overwrite another campaign branch.",
                ),
            )));
        }
        i = i + 1;
    }
    Ok(())
}

// ----------------------------------------------------------------------
// The managed state an install records
// ----------------------------------------------------------------------

/// A file record over character sequences.
pub open spec fn file_view(f: ManagedFile) -> (Seq<char>, bool, Option<Seq<char>>, Option<Seq<char>>) {
    (
        f.destination@,
        f.original_existed,
        match f.backup_path {
            Some(b) => Some(b@),
            None => None,
        },
        match f.installed_sha256 {
            Some(h) => Some(h@),
            None => None,
        },
    )
}

pub open spec fn file_views(fs: Seq<ManagedFile>) -> Seq<(Seq<char>, bool, Option<Seq<char>>, Option<Seq<char>>)> {
    fs.map_values(|f: ManagedFile| file_view(f))
}

/// Index of the record for `destination`, or -1.
pub open spec fn record_index(fs: Seq<(Seq<char>, bool, Option<Seq<char>>, Option<Seq<char>>)>, destination: Seq<char>) -> int
    decreases fs.len(),
{
    if fs.len() == 0 {
        -1
    } else if record_index(fs.drop_last(), destination) >= 0 {
        record_index(fs.drop_last(), destination)
    } else if fs.last().0 == destination {
        fs.len() - 1
    } else {
        -1
    }
}

/// The records of the originals an install backed up: each destination
/// once, first occurrence first, with its backup under `backup_dir`.
pub open spec fn original_records(originals: Seq<Seq<char>>, backup_dir: Seq<char>) -> Seq<
    (Seq<char>, bool, Option<Seq<char>>, Option<Seq<char>>),
>
    decreases originals.len(),
{
    if originals.len() == 0 {
        Seq::empty()
    } else {
        let prev = original_records(originals.drop_last(), backup_dir);
        let d = originals.last();
        if record_index(prev, d) >= 0 {
            prev
        } else {
            prev.push((d, true, Some(backup_dir + "/"@ + d), None))
        }
    }
}

/// The staged package files marked in: an original they replace gets the
/// installed hash; a new destination gets a record of its own.
pub open spec fn with_staged(
    fs: Seq<(Seq<char>, bool, Option<Seq<char>>, Option<Seq<char>>)>,
    staged: Seq<(Seq<char>, Seq<char>)>,
) -> Seq<(Seq<char>, bool, Option<Seq<char>>, Option<Seq<char>>)>
    decreases staged.len(),
{
    if staged.len() == 0 {
        fs
    } else {
        let prev = with_staged(fs, staged.drop_last());
        let (d, h) = staged.last();
        let k = record_index(prev, d);
        if k >= 0 {
            prev.update(k, (prev[k].0, prev[k].1, prev[k].2, Some(h)))
        } else {
            prev.push((d, false, None, Some(h)))
        }
    }
}

proof fn lemma_record_index_bounds(fs: Seq<(Seq<char>, bool, Option<Seq<char>>, Option<Seq<char>>)>, d: Seq<char>)
    ensures
        record_index(fs, d) == -1 || (0 <= record_index(fs, d) < fs.len() && fs[record_index(fs, d)].0 == d),
        record_index(fs, d) == -1 ==> forall|j: int| 0 <= j < fs.len() ==> #[trigger] fs[j].0 != d,
    decreases fs.len(),
{
    if fs.len() > 0 {
        lemma_record_index_bounds(fs.drop_last(), d);
        assert forall|j: int| 0 <= j < fs.len() - 1 implies fs.drop_last()[j] == #[trigger] fs[j] by {}
    }
}

proof fn lemma_record_index_update(
    fs: Seq<(Seq<char>, bool, Option<Seq<char>>, Option<Seq<char>>)>,
    k: int,
    x: (Seq<char>, bool, Option<Seq<char>>, Option<Seq<char>>),
    d: Seq<char>,
)
    requires
        0 <= k < fs.len(),
        x.0 == fs[k].0,
    ensures
        record_index(fs.update(k, x), d) == record_index(fs, d),
    decreases fs.len(),
{
    if k == fs.len() - 1 {
        assert(fs.update(k, x).drop_last() =~= fs.drop_last());
    } else {
        assert(fs.update(k, x).drop_last() =~= fs.drop_last().update(k, x));
        lemma_record_index_update(fs.drop_last(), k, x, d);
    }
}

fn find_record(files: &Vec<ManagedFile>, destination: &[char]) -> (r: Option<usize>)
    ensures
        match r {
            Some(k) => k as int == record_index(file_views(files@), destination@),
            None => record_index(file_views(files@), destination@) == -1,
        },
{
    let ghost fv = file_views(files@);
    let mut i: usize = 0;
    while i < files.len()
        invariant
            i <= files.len(),
            fv == file_views(files@),
            forall|j: int| 0 <= j < i ==> #[trigger] fv[j].0 != destination@,
        decreases files.len() - i,
    {
        if chars_eq(&chars_of(files[i].destination.as_str()), destination) {
            proof {
                lemma_record_index_bounds(fv, destination@);
                let k = record_index(fv, destination@);
                if k == -1 {
                    assert(fv[i as int].0 == destination@);
                } else {
                    assert(k <= i) by {
                        if k > i {
                            lemma_first_record(fv, destination@, i as int);
                        }
                    }
                    if k < i {
                        assert(fv[k].0 != destination@);
                    }
                }
            }
            return Some(i);
        }
        i = i + 1;
    }
    proof {
        lemma_record_index_bounds(fv, destination@);
        if record_index(fv, destination@) >= 0 {
            assert(fv[record_index(fv, destination@)].0 != destination@);
        }
    }
    None
}

proof fn lemma_first_record(fs: Seq<(Seq<char>, bool, Option<Seq<char>>, Option<Seq<char>>)>, d: Seq<char>, i: int)
    requires
        0 <= i < fs.len(),
        fs[i].0 == d,
    ensures
        0 <= record_index(fs, d) <= i,
    decreases fs.len(),
{
    if i < fs.len() - 1 {
        lemma_first_record(fs.drop_last(), d, i);
    } else {
        lemma_record_index_bounds(fs.drop_last(), d);
    }
}

/// The file records of a new install: the backed-up originals (each
/// destination once, first occurrence kept) with the staged package files
/// marked in.
pub fn managed_files_for_install(originals: &Vec<String>, backup_dir: &str, staged: &Vec<(String, String)>) -> (r: Vec<ManagedFile>)
    ensures
        file_views(r@) == with_staged(
            original_records(views_of(originals@), backup_dir@),
            staged@.map_values(|s: (String, String)| (s.0@, s.1@)),
        ),
{
    let mut files: Vec<ManagedFile> = Vec::new();
    let ghost ov = views_of(originals@);
    let mut i: usize = 0;
    while i < originals.len()
        invariant
            i <= originals.len(),
            ov == views_of(originals@),
            file_views(files@) == original_records(ov.take(i as int), backup_dir@),
        decreases originals.len() - i,
    {
        proof {
            assert(ov.take(i as int + 1).drop_last() =~= ov.take(i as int));
        }
        let d = chars_of(originals[i].as_str());
        if find_record(&files, &d).is_none() {
            let backup = concat_chars(&concat_chars(&chars_of(backup_dir), &chars_of("/")), &d);
            let ghost before = files@;
            files.push(ManagedFile {
                destination: owned(originals[i].as_str()),
                original_existed: true,
                backup_path: Some(string_from_chars(&backup)),
                installed_sha256: None,
            });
            proof {
                assert(file_views(files@) =~= file_views(before).push((d@, true, Some(backup_dir@ + "/"@ + d@), None)));
            }
        }
        i = i + 1;
    }
    proof {
        assert(ov.take(ov.len() as int) =~= ov);
    }
    let ghost base = file_views(files@);
    let ghost sv = staged@.map_values(|s: (String, String)| (s.0@, s.1@));
    let mut k: usize = 0;
    while k < staged.len()
        invariant
            k <= staged.len(),
            sv == staged@.map_values(|s: (String, String)| (s.0@, s.1@)),
            file_views(files@) == with_staged(base, sv.take(k as int)),
        decreases staged.len() - k,
    {
        proof {
            assert(sv.take(k as int + 1).drop_last() =~= sv.take(k as int));
        }
        let d = chars_of(staged[k].0.as_str());
        let h = owned(staged[k].1.as_str());
        let ghost before = file_views(files@);
        match find_record(&files, &d) {
            Some(p) => {
                proof {
                    lemma_record_index_bounds(before, d@);
                }
                let old_file = &files[p];
                let updated = ManagedFile {
                    destination: owned(old_file.destination.as_str()),
                    original_existed: old_file.original_existed,
                    backup_path: match &old_file.backup_path {
                        Some(b) => Some(owned(b.as_str())),
                        None => None,
                    },
                    installed_sha256: Some(h),
                };
                files.set(p, updated);
                proof {
                    assert(file_views(files@) =~= before.update(p as int, (before[p as int].0, before[p as int].1, before[p as int].2, Some(staged@[k as int].1@))));
                }
            },
            None => {
                files.push(ManagedFile {
                    destination: owned(staged[k].0.as_str()),
                    original_existed: false,
                    backup_path: None,
                    installed_sha256: Some(h),
                });
                proof {
                    assert(file_views(files@) =~= before.push((d@, false, None, Some(staged@[k as int].1@))));
                }
            },
        }
        k = k + 1;
    }
    proof {
        assert(sv.take(sv.len() as int) =~= sv);
    }
    files
}

pub open spec fn views_of(v: Seq<String>) -> Seq<Seq<char>> {
    v.map_values(|s: String| s@)
}

/// Every destination has one record after an install is recorded.
pub proof fn lemma_install_records_each_destination_once(
    originals: Seq<Seq<char>>,
    backup_dir: Seq<char>,
    staged: Seq<(Seq<char>, Seq<char>)>,
)
    ensures
        forall|a: int, b: int|
            0 <= a < b < with_staged(original_records(originals, backup_dir), staged).len() ==> #[trigger] with_staged(
                original_records(originals, backup_dir),
                staged,
            )[a].0 != #[trigger] with_staged(original_records(originals, backup_dir), staged)[b].0,
{
    lemma_originals_distinct(originals, backup_dir);
    lemma_staged_distinct(original_records(originals, backup_dir), staged);
}

pub open spec fn distinct_destinations(fs: Seq<(Seq<char>, bool, Option<Seq<char>>, Option<Seq<char>>)>) -> bool {
    forall|a: int, b: int| 0 <= a < b < fs.len() ==> #[trigger] fs[a].0 != #[trigger] fs[b].0
}

proof fn lemma_originals_distinct(originals: Seq<Seq<char>>, backup_dir: Seq<char>)
    ensures
        distinct_destinations(original_records(originals, backup_dir)),
    decreases originals.len(),
{
    if originals.len() > 0 {
        let prev = original_records(originals.drop_last(), backup_dir);
        lemma_originals_distinct(originals.drop_last(), backup_dir);
        lemma_record_index_bounds(prev, originals.last());
    }
}

proof fn lemma_staged_distinct(fs: Seq<(Seq<char>, bool, Option<Seq<char>>, Option<Seq<char>>)>, staged: Seq<(Seq<char>, Seq<char>)>)
    requires
        distinct_destinations(fs),
    ensures
        distinct_destinations(with_staged(fs, staged)),
    decreases staged.len(),
{
    if staged.len() > 0 {
        let prev = with_staged(fs, staged.drop_last());
        lemma_staged_distinct(fs, staged.drop_last());
        lemma_record_index_bounds(prev, staged.last().0);
    }
}

/// The managed state `backup_campaign_directory` records for an install.
pub fn managed_state_for_install(
    campaign_id: &str,
    title: &str,
    author: &str,
    version: &str,
    target_path: &str,
    installed_at: u64,
    backup_dir: String,
    cleared_directories: Vec<String>,
    files: Vec<ManagedFile>,
) -> (r: ManagedState)
    ensures
        r.format == 1,
        r.campaign_id@ == campaign_id@,
        r.title@ == trim(title@),
        r.author@ == trim(author@),
        r.version@ == trim(version@),
        r.target_path@ == target_path@,
        r.installed_at == installed_at,
        r.backup_dir == backup_dir,
        r.cleared_directories == cleared_directories,
        r.files == files,
{
    ManagedState {
        format: 1,
        campaign_id: owned(campaign_id),
        title: string_from_chars(&trim_exec(&chars_of(title))),
        author: string_from_chars(&trim_exec(&chars_of(author))),
        version: string_from_chars(&trim_exec(&chars_of(version))),
        target_path: owned(target_path),
        installed_at,
        backup_dir,
        cleared_directories,
        files,
    }
}

/// A staged package file as the installed manifest records it.
#[derive(Debug, Clone, PartialEq, Eq)]
pub struct StagedFile {
    pub destination: String,
    pub source: String,
    pub size: u64,
    pub sha256: String,
}

pub open spec fn installed_kind(destination: Seq<char>) -> Seq<char> {
    if starts_with(destination, "Mods/"@) { "package dependency"@ } else { "package campaign file"@ }
}

/// `installed_manifest_from_staged`: the inventory of the files an install
/// writes.
pub fn installed_manifest_from_staged(
    campaign_id: &str,
    title: &str,
    author: &str,
    version: &str,
    package_sha256: &str,
    target_path: &str,
    installed_at: u64,
    staged: &Vec<StagedFile>,
) -> (r: InstalledManifest)
    ensures
        r.schema_version == INSTALLED_MANIFEST_SCHEMA_VERSION,
        r.campaign_id@ == campaign_id@,
        r.title@ == trim(title@),
        r.author@ == trim(author@),
        r.version@ == trim(version@),
        r.package_sha256@ == package_sha256@,
        r.target_path@ == target_path@,
        r.installed_at == installed_at,
        r.files@.len() == staged@.len(),
        forall|i: int|
            0 <= i < staged@.len() ==> {
                let f = #[trigger] r.files@[i];
                let s = staged@[i];
                f.destination@ == s.destination@ && f.source@ == s.source@ && f.size == s.size && f.sha256@ == s.sha256@
                    && f.kind@ == installed_kind(s.destination@)
            },
{
    let mut files: Vec<InstalledFile> = Vec::new();
    let mut i: usize = 0;
    while i < staged.len()
        invariant
            i <= staged.len(),
            files@.len() == i,
            forall|j: int|
                0 <= j < i ==> {
                    let f = #[trigger] files@[j];
                    let s = staged@[j];
                    f.destination@ == s.destination@ && f.source@ == s.source@ && f.size == s.size && f.sha256@
                        == s.sha256@ && f.kind@ == installed_kind(s.destination@)
                },
        decreases staged.len() - i,
    {
        let s = &staged[i];
        let kind = if starts_with_exec(&chars_of(s.destination.as_str()), &chars_of("Mods/")) {
            owned("package dependency")
        } else {
            owned("package campaign file")
        };
        files.push(InstalledFile {
            destination: owned(s.destination.as_str()),
            source: owned(s.source.as_str()),
            size: s.size,
            sha256: owned(s.sha256.as_str()),
            kind,
        });
        i = i + 1;
    }
    InstalledManifest {
        schema_version: INSTALLED_MANIFEST_SCHEMA_VERSION,
        campaign_id: owned(campaign_id),
        title: string_from_chars(&trim_exec(&chars_of(title))),
        author: string_from_chars(&trim_exec(&chars_of(author))),
        version: string_from_chars(&trim_exec(&chars_of(version))),
        package_sha256: owned(package_sha256),
        target_path: owned(target_path),
        installed_at,
        files,
    }
}

// ----------------------------------------------------------------------
// When a step fails
// ----------------------------------------------------------------------

/// The steps of `install_archive` after the package is staged.
#[derive(Debug, Clone, Copy, PartialEq, Eq)]
pub enum InstallStep {
    /// Saving and switching the account profile.
    SwitchProfile,
    /// Writing the journal of the profile switch.
    JournalProfile,
    /// Restoring the previous campaign's files.
    RestorePrevious,
    /// Backing up the branch's originals.
    BackupOriginals,
    /// Writing the journal with the new managed state.
    JournalNewState,
    /// Clearing the branch, replacing dependencies, copying files, and
    /// writing the manifest and the state.
    ReplaceFiles,
    /// Marking the journal complete.
    JournalComplete,
}

/// What `install_archive` undoes when a step fails.
#[derive(Debug, Clone, Copy, PartialEq, Eq)]
pub enum FailureResponse {
    /// Nothing: the error is reported as it is.
    Report,
    /// Roll the profile switch back.
    RollbackProfile,
    /// Put the previous install back and roll the profile back.
    RollbackBeforeNewState,
    /// As above, after deleting the new install's backup directory.
    DiscardBackupAndRollBack,
    /// Undo the new install's files, manifest and state, then as above.
    RollbackInstall,
}

pub open spec fn failure_response_spec(step: InstallStep) -> FailureResponse {
    match step {
        InstallStep::SwitchProfile => FailureResponse::Report,
        InstallStep::JournalProfile => FailureResponse::Report,
        InstallStep::RestorePrevious => FailureResponse::RollbackProfile,
        InstallStep::BackupOriginals => FailureResponse::RollbackBeforeNewState,
        InstallStep::JournalNewState => FailureResponse::DiscardBackupAndRollBack,
        InstallStep::ReplaceFiles => FailureResponse::RollbackInstall,
        InstallStep::JournalComplete => FailureResponse::Report,
    }
}

/// `install_archive`: what is undone when `step` fails. (A successful
/// rollback also removes the pending journal.)
pub fn failure_response(step: InstallStep) -> (r: FailureResponse)
    ensures
        r == failure_response_spec(step),
{
    match step {
        InstallStep::SwitchProfile => FailureResponse::Report,
        InstallStep::JournalProfile => FailureResponse::Report,
        InstallStep::RestorePrevious => FailureResponse::RollbackProfile,
        InstallStep::BackupOriginals => FailureResponse::RollbackBeforeNewState,
        InstallStep::JournalNewState => FailureResponse::DiscardBackupAndRollBack,
        InstallStep::ReplaceFiles => FailureResponse::RollbackInstall,
        InstallStep::JournalComplete => FailureResponse::Report,
    }
}

/// Once game files may have changed (from restoring the previous campaign
/// on), a failed step always rolls the profile back with whatever else it
/// undoes.
pub proof fn lemma_failures_after_switch_roll_back(step: InstallStep)
    requires
        step != InstallStep::SwitchProfile,
        step != InstallStep::JournalProfile,
        step != InstallStep::JournalComplete,
    ensures
        failure_response_spec(step) != FailureResponse::Report,
{
}

/// The archive on disk must hash to the SHA-256 the catalog gave.
pub fn check_archive_hash(actual_sha256: &str, expected_sha256: &str) -> (r: Result<(), String>)
    ensures
        r is Ok <==> actual_sha256@ == expected_sha256@,
        r matches Err(e) ==> e@ == "The downloaded archive does not match the catalog SHA-256. Installation stopped."@,
{
    if chars_eq(&chars_of(actual_sha256), &chars_of(expected_sha256)) {
        Ok(())
    } else {
        Err(owned("The downloaded archive does not match the catalog SHA-256. Installation stopped."))
    }
}

pub open spec fn orphan_manifest_error(manifest_path: Seq<char>) -> Seq<char> {
    "Installed manifest "@ + manifest_path
        + " has no active managed state; refusing to delete files. Run recovery or restore first."@
}

/// An installed manifest with no managed state for its branch is refused:
/// an install would not know which files it may delete.
pub fn refuse_orphan_manifest(has_state: bool, manifest_exists: bool, manifest_path: &str) -> (r: Result<(), String>)
    ensures
        r is Err <==> !has_state && manifest_exists,
        r matches Err(e) ==> e@ == orphan_manifest_error(manifest_path@),
{
    if !has_state && manifest_exists {
        let m = concat_chars(&chars_of("Installed manifest "), &chars_of(manifest_path));
        let m = concat_chars(
            &m,
            &chars_of(" has no active managed state; refusing to delete files. Run recovery or restore first."),
        );
        return Err(string_from_chars(&m));
    }
    Ok(())
}

/// The first occurrence of each path, in the order they were found.
pub open spec fn first_occurrences(s: Seq<Seq<char>>) -> Seq<Seq<char>>
    decreases s.len(),
{
    if s.len() == 0 {
        Seq::empty()
    } else {
        crate::discovery::add_unique(first_occurrences(s.drop_last()), s.last())
    }
}

proof fn lemma_first_occurrences(s: Seq<Seq<char>>)
    ensures
        first_occurrences(s).no_duplicates(),
        forall|x: Seq<char>| #[trigger] first_occurrences(s).contains(x) <==> s.contains(x),
    decreases s.len(),
{
    if s.len() > 0 {
        let r = first_occurrences(s.drop_last());
        lemma_first_occurrences(s.drop_last());
        assert(s =~= s.drop_last().push(s.last()));
        let d = s.drop_last();
        let l = s.last();
        assert forall|x: Seq<char>| #[trigger] first_occurrences(s).contains(x) <==> s.contains(x) by {
            if s.contains(x) {
                let k = choose|k: int| 0 <= k < s.len() && s[k] == x;
                if k < s.len() - 1 {
                    assert(d[k] == x);
                    assert(d.contains(x));
                }
            }
            if d.contains(x) {
                let k = choose|k: int| 0 <= k < d.len() && d[k] == x;
                assert(s[k] == x);
            }
            assert(s[s.len() - 1] == l);
            if !r.contains(l) {
                assert(r.push(l)[r.len() as int] == l);
                if r.contains(x) {
                    let k = choose|k: int| 0 <= k < r.len() && r[k] == x;
                    assert(r.push(l)[k] == x);
                }
                if r.push(l).contains(x) {
                    let k = choose|k: int| 0 <= k < r.len() + 1 && r.push(l)[k] == x;
                    if k < r.len() {
                        assert(r[k] == x);
                    }
                }
            }
        }
        if !r.contains(l) {
            assert forall|a: int, b: int| 0 <= a < b < r.len() + 1 implies r.push(l)[a] != r.push(l)[b] by {
                if b == r.len() {
                    assert(r[a] == r.push(l)[a]);
                } else {
                    assert(r[a] != r[b]);
                }
            }
        }
    }
}

/// The originals a backup copies: each path found once, in the order found.
pub fn unique_originals(found: &[String]) -> (r: Vec<String>)
    ensures
        crate::text::views(r@) == first_occurrences(crate::text::views(found@)),
        crate::text::views(r@).no_duplicates(),
        forall|x: Seq<char>| #[trigger] crate::text::views(r@).contains(x) <==> crate::text::views(found@).contains(x),
{
    let mut out: Vec<String> = Vec::new();
    let mut i: usize = 0;
    while i < found.len()
        invariant
            i <= found.len(),
            crate::text::views(out@) == first_occurrences(crate::text::views(found@).take(i as int)),
        decreases found.len() - i,
    {
        proof {
            assert(crate::text::views(found@).take(i as int + 1).drop_last() =~= crate::text::views(found@).take(i as int));
        }
        crate::discovery::push_unique(&mut out, found[i].clone());
        i = i + 1;
    }
    proof {
        assert(crate::text::views(found@).take(found@.len() as int) =~= crate::text::views(found@));
        lemma_first_occurrences(crate::text::views(found@));
    }
    out
}

/// The error when the previous install's files changed outside CCM.
pub fn previous_conflicts_error() -> (r: String)
    ensures
        r@ == "The active campaign has files changed outside CCM Reborn. Restore it manually before updating."@,
{
    owned("The active campaign has files changed outside CCM Reborn. Restore it manually before updating.")
}

/// The report of a finished install.
pub fn install_result(state: &ManagedState, manifest_path: &str, package_sha256: &str, files_installed: usize) -> (r: crate::inspection::InstallResult)
    ensures
        r.campaign_id@ == state.campaign_id@,
        r.title@ == state.title@,
        r.version@ == state.version@,
        r.manifest_path@ == manifest_path@,
        r.package_sha256@ == package_sha256@,
        r.files_installed == files_installed,
{
    crate::inspection::InstallResult {
        campaign_id: owned(state.campaign_id.as_str()),
        title: owned(state.title.as_str()),
        version: owned(state.version.as_str()),
        manifest_path: owned(manifest_path),
        package_sha256: owned(package_sha256),
        files_installed,
    }
}

} // verus!
