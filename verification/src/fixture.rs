//! The read-only inventory of an explicit directory that `ccm summary`
//! prints: each file's path, kind, size and SHA-256, in path order.

use vstd::prelude::*;
use crate::campaign_profile::{part_views, path_parts, path_parts_exec, relative_profile_path, relative_under};
use crate::order::{insertion_sort, is_sorted, ListOrder};
use crate::resume::{lemma_parts_lt_laws, lemma_parts_lt_total, parts_lt, parts_lt_exec};
use crate::text::{chars_of, concat_chars, ends_with, ends_with_exec, lower, lower_exec, owned, starts_with,
    starts_with_exec, string_from_chars};

verus! {

/// A regular file found under the inventoried root.
#[derive(Debug, Clone, PartialEq, Eq)]
pub struct FoundFile {
    pub path: String,
    pub size: u64,
    pub sha256: String,
}

impl ListOrder for FoundFile {
    open spec fn precedes(a: Self, b: Self) -> bool {
        parts_lt(path_parts(a.path@), path_parts(b.path@))
    }

    proof fn lemma_order(a: Self, b: Self, c: Self) {
        let (x, y, z) = (path_parts(a.path@), path_parts(b.path@), path_parts(c.path@));
        lemma_parts_lt_laws(x, y, z);
        lemma_parts_lt_laws(x, z, y);
        lemma_parts_lt_laws(y, z, x);
        lemma_parts_lt_laws(y, x, z);
        lemma_parts_lt_total(x, y);
        lemma_parts_lt_total(y, z);
    }

    fn precedes_exec(a: &Self, b: &Self) -> (r: bool) {
        let x = path_parts_exec(&chars_of(a.path.as_str()));
        let y = path_parts_exec(&chars_of(b.path.as_str()));
        proof {
            assert(x@.map_values(|l: Vec<char>| l@) =~= part_views(x@));
            assert(y@.map_values(|l: Vec<char>| l@) =~= part_views(y@));
        }
        parts_lt_exec(&x, &y)
    }
}

/// One file of the inventory.
#[derive(Debug, Clone, PartialEq, Eq)]
pub struct FixtureFile {
    pub relative_path: String,
    pub kind: String,
    pub size: u64,
    pub sha256: String,
}

/// The inventory of a directory.
#[derive(Debug, Clone, PartialEq, Eq)]
pub struct FixtureSummary {
    pub schema_version: u32,
    pub root: String,
    pub file_count: usize,
    pub bytes: u64,
    pub files: Vec<FixtureFile>,
}

/// What kind of profile file a relative path names (ASCII case ignored).
pub open spec fn fixture_kind_spec(relative_path: Seq<char>) -> Seq<char> {
    let l = lower(relative_path);
    if l == "campaignprogress.xml"@ {
        "campaign-progress"@
    } else if starts_with(l, "banks/"@) && ends_with(l, "campaign.sc2bank"@) {
        "campaign-bank"@
    } else if starts_with(l, "saves/"@) && ends_with(l, ".sc2save"@) {
        "campaign-save"@
    } else {
        "other"@
    }
}

/// The kind of a fixture file, by its relative path.
pub fn fixture_file_kind(relative_path: &str) -> (r: String)
    ensures
        r@ == fixture_kind_spec(relative_path@),
{
    let l = lower_exec(&chars_of(relative_path));
    if crate::text::chars_eq(&l, &chars_of("campaignprogress.xml")) {
        owned("campaign-progress")
    } else if starts_with_exec(&l, &chars_of("banks/")) && ends_with_exec(&l, &chars_of("campaign.sc2bank")) {
        owned("campaign-bank")
    } else if starts_with_exec(&l, &chars_of("saves/")) && ends_with_exec(&l, &chars_of(".sc2save")) {
        owned("campaign-save")
    } else {
        owned("other")
    }
}

pub open spec fn not_a_fixture_root_error(root: Seq<char>) -> Seq<char> {
    "Fixture root is not a directory: "@ + root
}

/// The inventoried root must be a directory.
pub fn check_fixture_root(root: &str, is_dir: bool) -> (r: Result<(), String>)
    ensures
        (r is Ok) <==> is_dir,
        r matches Err(e) ==> e@ == not_a_fixture_root_error(root@),
{
    if !is_dir {
        return Err(string_from_chars(&concat_chars(&chars_of("Fixture root is not a directory: "), &chars_of(root))));
    }
    Ok(())
}

pub open spec fn escaped_fixture_error() -> Seq<char> {
    "Fixture file escaped its root."@
}

/// The inventory entry of a found file, placed relative to `root`.
pub open spec fn fixture_entry(root: Seq<char>, f: FoundFile) -> Option<(Seq<char>, Seq<char>, u64, Seq<char>)> {
    match relative_under(root, f.path@) {
        Some(rel) => Some((rel, fixture_kind_spec(rel), f.size, f.sha256@)),
        None => None,
    }
}

pub open spec fn fixture_view(f: FixtureFile) -> (Seq<char>, Seq<char>, u64, Seq<char>) {
    (f.relative_path@, f.kind@, f.size, f.sha256@)
}

/// The sum of the sizes, saturating at `u64::MAX`.
pub open spec fn bytes_total(fs: Seq<FixtureFile>) -> int
    decreases fs.len(),
{
    if fs.len() == 0 {
        0
    } else {
        let t = bytes_total(fs.drop_last()) + fs.last().size;
        if t > u64::MAX {
            u64::MAX as int
        } else {
            t
        }
    }
}

/// The inventory of the regular files found under a fixture `root`:
/// sorted by path, each placed relative to the root with its kind; the total
/// size saturates.
pub fn fixture_summary(root: &str, found: Vec<FoundFile>) -> (r: Result<FixtureSummary, String>)
    ensures
        match r {
            Ok(s) => {
                &&& s.schema_version == 1
                &&& s.root@ == root@
                &&& s.file_count == s.files@.len()
                &&& s.bytes == bytes_total(s.files@)
                &&& exists|sorted: Seq<FoundFile>|
                    #![trigger sorted.to_multiset()]
                    sorted.to_multiset() == found@.to_multiset() && is_sorted(sorted) && sorted.len() == s.files@.len()
                        && forall|i: int|
                        0 <= i < sorted.len() ==> fixture_entry(root@, #[trigger] sorted[i]) == Some(
                            fixture_view(s.files@[i]),
                        )
            },
            Err(e) => e@ == escaped_fixture_error(),
        },
        (r is Err) <==> exists|i: int| 0 <= i < found@.len() && fixture_entry(root@, #[trigger] found@[i]) is None,
{
    let ghost original = found@;
    let mut list = found;
    insertion_sort(list.as_mut_slice());
    let ghost sorted = list@;
    let mut files: Vec<FixtureFile> = Vec::new();
    let mut bytes: u64 = 0;
    let mut i: usize = 0;
    while i < list.len()
        invariant
            i <= list@.len(),
            list@ == sorted,
            original == found@,
            sorted.to_multiset() == original.to_multiset(),
            files@.len() == i,
            bytes == bytes_total(files@),
            forall|j: int| 0 <= j < i ==> fixture_entry(root@, #[trigger] sorted[j]) == Some(fixture_view(files@[j])),
        decreases list.len() - i,
    {
        let f = &list[i];
        let rel = match relative_profile_path(root, f.path.as_str()) {
            Some(rel) => rel,
            None => {
                proof {
                    let x = sorted[i as int];
                    assert(sorted.contains(x));
                    vstd::seq_lib::to_multiset_contains(sorted, x);
                    vstd::seq_lib::to_multiset_contains(original, x);
                    let j = choose|j: int| 0 <= j < original.len() && original[j] == x;
                    assert(fixture_entry(root@, original[j]) is None);
                }
                return Err(owned("Fixture file escaped its root."));
            },
        };
        let kind = fixture_file_kind(rel.as_str());
        let ghost before = files@;
        bytes = bytes.saturating_add(f.size);
        files.push(FixtureFile { relative_path: rel, kind, size: f.size, sha256: f.sha256.clone() });
        proof {
            assert(files@.drop_last() =~= before);
            assert(fixture_view(files@[i as int]) == (rel@, fixture_kind_spec(rel@), sorted[i as int].size, sorted[i as int].sha256@));
        }
        i = i + 1;
    }
    proof {
        assert forall|j: int| 0 <= j < original.len() implies fixture_entry(root@, #[trigger] original[j]) is Some by {
            let x = original[j];
            assert(original.contains(x));
            vstd::seq_lib::to_multiset_contains(original, x);
            vstd::seq_lib::to_multiset_contains(sorted, x);
            let k = choose|k: int| 0 <= k < sorted.len() && sorted[k] == x;
            assert(fixture_entry(root@, sorted[k]) is Some);
        }
    }
    let count = files.len();
    Ok(FixtureSummary { schema_version: 1, root: owned(root), file_count: count, bytes, files })
}

} // verus!
