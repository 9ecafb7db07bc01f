//! The layout of a CCM package, decided on its member names alone: a valid
//! package has exactly one `metadata.txt`, and its content is what lies in
//! that file's folder. The whole-game-root layout (top-level `Maps/` and
//! `Mods/` folders, with `metadata.txt` inside the campaign slot) also
//! carries the `.SC2Mod` dependencies from the sibling `Mods/` folder.

use vstd::prelude::*;
use crate::paths::{dependency_destination, dependency_destination_spec, has_char};
use crate::text::{
    chars_eq, chars_of, ends_with, ends_with_exec, find_char_exec, lower, lower_exec, owned, slice_chars,
    starts_with, starts_with_exec, string_from_chars, views,
};

verus! {

// ----------------------------------------------------------------------
// Member names
// ----------------------------------------------------------------------

/// Index of the last `c` in `s` before `end`, or -1.
pub open spec fn last_index_before(s: Seq<char>, c: char, end: int) -> int
    decreases end,
{
    if end <= 0 {
        -1
    } else if s[end - 1] == c {
        end - 1
    } else {
        last_index_before(s, c, end - 1)
    }
}

/// Index of the last `/` of a member name, or -1.
pub open spec fn last_slash(s: Seq<char>) -> int {
    last_index_before(s, '/', s.len() as int)
}

/// The last `/`-separated segment of a member name.
pub open spec fn last_segment(s: Seq<char>) -> Seq<char> {
    s.skip(last_slash(s) + 1)
}

/// The folder of a member: its name through the last `/` (empty at the top).
pub open spec fn folder_of(s: Seq<char>) -> Seq<char> {
    s.take(last_slash(s) + 1)
}

/// A member whose last segment is `metadata.txt`, ASCII case ignored.
pub open spec fn is_metadata_name(s: Seq<char>) -> bool {
    lower(last_segment(s)) == "metadata.txt"@
}

fn last_slash_exec(s: &[char]) -> (r: usize)
    ensures
        r as int == last_slash(s@) + 1,
        r <= s.len(),
{
    let mut i = s.len();
    while i > 0
        invariant
            i <= s.len(),
            last_slash(s@) == last_index_before(s@, '/', i as int),
        decreases i,
    {
        if s[i - 1] == '/' {
            return i;
        }
        i = i - 1;
    }
    0
}

/// Whether a member is the package's `metadata.txt`.
pub fn is_metadata_file(name: &str) -> (r: bool)
    ensures
        r == is_metadata_name(name@),
{
    let v = chars_of(name);
    let start = last_slash_exec(&v);
    let segment = slice_chars(&v, start, v.len());
    proof {
        assert(segment@ =~= last_segment(name@));
    }
    chars_eq(&lower_exec(&segment), &chars_of("metadata.txt"))
}

// ----------------------------------------------------------------------
// The package's metadata file and content folder
// ----------------------------------------------------------------------

pub open spec fn backslash_error() -> Seq<char> {
    "CCM packages must use forward slashes in ZIP paths."@
}

pub open spec fn metadata_count_error() -> Seq<char> {
    "A CCM package must contain exactly one metadata.txt file."@
}

/// `i` is the one member that is a `metadata.txt`.
pub open spec fn is_only_metadata(names: Seq<Seq<char>>, i: int) -> bool {
    &&& 0 <= i < names.len()
    &&& is_metadata_name(names[i])
    &&& forall|j: int| 0 <= j < names.len() && #[trigger] is_metadata_name(names[j]) ==> j == i
}

pub open spec fn has_backslash_member(names: Seq<Seq<char>>) -> bool {
    exists|j: int| 0 <= j < names.len() && #[trigger] has_char(names[j], '\\')
}

/// `package_layout`: the index of the package's one `metadata.txt` and its
/// folder, the content prefix. A member name with a backslash is refused
/// first; then a package without exactly one `metadata.txt`.
pub fn package_layout(member_names: &[String]) -> (r: Result<(usize, String), String>)
    ensures
        match r {
            Ok((i, p)) => {
                &&& !has_backslash_member(views(member_names@))
                &&& is_only_metadata(views(member_names@), i as int)
                &&& p@ == folder_of(member_names@[i as int]@)
            },
            Err(e) => if has_backslash_member(views(member_names@)) {
                e@ == backslash_error()
            } else {
                &&& e@ == metadata_count_error()
                &&& forall|i: int| !is_only_metadata(views(member_names@), i)
            },
        },
{
    let ghost names = views(member_names@);
    let mut found: Option<usize> = None;
    let mut many = false;
    let mut i: usize = 0;
    while i < member_names.len()
        invariant
            i <= member_names.len(),
            names == views(member_names@),
            forall|j: int| 0 <= j < i ==> !has_char(#[trigger] names[j], '\\'),
            found is None ==> forall|j: int| 0 <= j < i ==> !is_metadata_name(#[trigger] names[j]),
            found is Some ==> {
                let k = found->0 as int;
                &&& k < i
                &&& is_metadata_name(names[k])
                &&& !many ==> forall|j: int| 0 <= j < i && #[trigger] is_metadata_name(names[j]) ==> j == k
            },
            many ==> found is Some && exists|j: int| 0 <= j < i && j != found->0 && #[trigger] is_metadata_name(names[j]),
        decreases member_names.len() - i,
    {
        let name = member_names[i].as_str();
        proof {
            assert(names[i as int] == name@);
        }
        if find_char_exec(&chars_of(name), '\\', 0).is_some() {
            proof {
                assert(has_char(names[i as int], '\\'));
            }
            return Err(owned("CCM packages must use forward slashes in ZIP paths."));
        }
        if is_metadata_file(name) {
            match found {
                None => {
                    found = Some(i);
                },
                Some(k) => {
                    many = true;
                    proof {
                        assert(i as int != k && is_metadata_name(names[i as int]));
                    }
                },
            }
        }
        i = i + 1;
    }
    proof {
        assert(!has_backslash_member(names));
    }
    match found {
        Some(k) => {
            if many {
                proof {
                    let j = choose|j: int| 0 <= j < i && j != k && #[trigger] is_metadata_name(names[j]);
                    assert forall|x: int| !is_only_metadata(names, x) by {
                        if is_only_metadata(names, x) {
                            assert(is_metadata_name(names[j]));
                            assert(is_metadata_name(names[k as int]));
                        }
                    }
                }
                Err(owned("A CCM package must contain exactly one metadata.txt file."))
            } else {
                let v = chars_of(member_names[k].as_str());
                let end = last_slash_exec(&v);
                let prefix = slice_chars(&v, 0, end);
                proof {
                    assert(prefix@ =~= folder_of(member_names@[k as int]@));
                }
                Ok((k, string_from_chars(&prefix)))
            }
        },
        None => {
            proof {
                assert forall|x: int| !is_only_metadata(names, x) by {
                    if is_only_metadata(names, x) {
                        assert(is_metadata_name(names[x]));
                    }
                }
            }
            Err(owned("A CCM package must contain exactly one metadata.txt file."))
        },
    }
}

// ----------------------------------------------------------------------
// Members and where they are taken from
// ----------------------------------------------------------------------

/// A member below `prefix`, as a path relative to it.
pub open spec fn member_relative_spec(prefix: Seq<char>, name: Seq<char>) -> Option<Seq<char>> {
    if starts_with(name, prefix) && name.len() > prefix.len() {
        Some(name.skip(prefix.len() as int))
    } else {
        None
    }
}

/// `package_member_relative`: the member's path relative to the content
/// prefix, when it lies below it.
pub fn package_member_relative(prefix: &str, name: &str) -> (r: Option<String>)
    ensures
        match r {
            Some(p) => member_relative_spec(prefix@, name@) == Some(p@),
            None => member_relative_spec(prefix@, name@) is None,
        },
{
    let n = chars_of(name);
    let p = chars_of(prefix);
    if starts_with_exec(&n, &p) && n.len() > p.len() {
        let rest = slice_chars(&n, p.len(), n.len());
        proof {
            assert(rest@ =~= name@.skip(prefix@.len() as int));
        }
        Some(string_from_chars(&rest))
    } else {
        None
    }
}

/// The whole-game-root layout: where the content folder is
/// `<root><target>/` (ASCII case ignored), the `<root>` in front of it.
pub open spec fn install_root_spec(prefix: Seq<char>, target: Seq<char>) -> Option<Seq<char>> {
    let tail = target + seq!['/'];
    if target.len() > 0 && ends_with(lower(prefix), lower(tail)) {
        Some(prefix.take(prefix.len() - tail.len()))
    } else {
        None
    }
}

/// Where a package takes its members from: the content prefix, and, for the
/// whole-game-root layout, the root whose `Mods/` folder holds dependencies.
#[derive(Debug, Clone, PartialEq, Eq)]
pub struct PackageLayout {
    pub content_prefix: String,
    pub install_root: Option<String>,
}

pub open spec fn opt_view(o: Option<String>) -> Option<Seq<char>> {
    match o {
        Some(s) => Some(s@),
        None => None,
    }
}

/// `resolve_package_layout`: the content prefix is the metadata file's
/// folder; the install root is set when that folder is the target's slot
/// under some root.
pub fn resolve_package_layout(metadata_name: &str, target_path: &str) -> (r: PackageLayout)
    ensures
        r.content_prefix@ == folder_of(metadata_name@),
        opt_view(r.install_root) == install_root_spec(folder_of(metadata_name@), target_path@),
{
    let v = chars_of(metadata_name);
    let end = last_slash_exec(&v);
    let prefix = slice_chars(&v, 0, end);
    proof {
        assert(prefix@ =~= folder_of(metadata_name@));
    }
    let mut tail = chars_of(target_path);
    tail.push('/');
    let ghost tail_view = target_path@ + seq!['/'];
    proof {
        assert(tail@ =~= tail_view);
    }
    let install_root = if tail.len() > 1 && ends_with_exec(&lower_exec(&prefix), &lower_exec(&tail)) {
        let root = slice_chars(&prefix, 0, prefix.len() - tail.len());
        proof {
            assert(root@ =~= prefix@.take(prefix@.len() - tail_view.len()));
        }
        Some(string_from_chars(&root))
    } else {
        None
    };
    PackageLayout { content_prefix: string_from_chars(&prefix), install_root }
}

/// A member of the sibling `Mods/` folder under the install root, taken as
/// `Mods/...` when it lies inside a `.SC2Mod` directory.
pub open spec fn root_dependency_spec(root: Seq<char>, name: Seq<char>) -> Option<Seq<char>> {
    match member_relative_spec(root, name) {
        Some(r) => if starts_with(r, "Mods/"@) && dependency_destination_spec(r) is Some {
            Some(r)
        } else {
            None
        },
        None => None,
    }
}

/// The path, relative to the package content, under which a member is
/// installed; `None` for members the layout leaves out.
pub open spec fn layout_member_spec(prefix: Seq<char>, root: Option<Seq<char>>, name: Seq<char>) -> Option<Seq<char>> {
    match member_relative_spec(prefix, name) {
        Some(r) => Some(r),
        None => match root {
            Some(base) => root_dependency_spec(base, name),
            None => None,
        },
    }
}

/// The member's path relative to the package content under its layout.
pub fn layout_member_relative(layout: &PackageLayout, name: &str) -> (r: Option<String>)
    ensures
        match r {
            Some(p) => layout_member_spec(layout.content_prefix@, opt_view(layout.install_root), name@) == Some(p@),
            None => layout_member_spec(layout.content_prefix@, opt_view(layout.install_root), name@) is None,
        },
{
    if let Some(relative) = package_member_relative(layout.content_prefix.as_str(), name) {
        return Some(relative);
    }
    match &layout.install_root {
        None => None,
        Some(root) => match package_member_relative(root.as_str(), name) {
            None => None,
            Some(relative) => {
                let mods = chars_of("Mods/");
                if starts_with_exec(&chars_of(relative.as_str()), &mods) && dependency_destination(relative.as_str()).is_some() {
                    Some(relative)
                } else {
                    None
                }
            },
        },
    }
}

} // verus!
