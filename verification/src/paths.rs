//! Relative game paths written with forward slashes, modelled by their
//! `/`-separated pieces and the normal components that `Path::components`
//! yields for them.

use vstd::prelude::*;
use crate::text::{
    chars_eq, chars_of, concat_chars, ends_with, ends_with_exec, find_char_exec, find_char_from,
    lemma_find_char_from_bounds, lower, lower_exec, owned, slice_chars, string_from_chars,
};

verus! {

pub open spec fn slash() -> char {
    '/'
}

/// The `/`-separated pieces of `s` from `from` on (empty pieces included).
pub open spec fn pieces_from(s: Seq<char>, from: int) -> Seq<Seq<char>>
    decreases s.len() + 1 - from,
{
    if from < 0 || from > s.len() {
        Seq::empty()
    } else {
        let k = find_char_from(s, '/', from);
        proof {
            lemma_find_char_from_bounds(s, '/', from);
        }
        if k < 0 {
            seq![s.subrange(from, s.len() as int)]
        } else {
            seq![s.subrange(from, k)] + pieces_from(s, k + 1)
        }
    }
}

pub open spec fn pieces(s: Seq<char>) -> Seq<Seq<char>> {
    pieces_from(s, 0)
}

pub open spec fn dot() -> Seq<char> {
    seq!['.']
}

pub open spec fn dot_dot() -> Seq<char> {
    seq!['.', '.']
}

/// A piece that `Path::components` reports as `Component::Normal`.
pub open spec fn is_normal_piece(p: Seq<char>) -> bool {
    p.len() > 0 && p != dot()
}

/// The normal components among `ps`, in order.
pub open spec fn normals(ps: Seq<Seq<char>>) -> Seq<Seq<char>>
    decreases ps.len(),
{
    if ps.len() == 0 {
        Seq::empty()
    } else if is_normal_piece(ps[0]) {
        seq![ps[0]] + normals(ps.drop_first())
    } else {
        normals(ps.drop_first())
    }
}

/// The components of a relative path that passed `is_safe_relative`.
pub open spec fn components(s: Seq<char>) -> Seq<Seq<char>> {
    normals(pieces(s))
}

/// A path with `\` read as `/`, the separator Windows also uses.
pub open spec fn slashed(p: Seq<char>) -> Seq<char> {
    p.map_values(|c: char| if c == '\\' { '/' } else { c })
}

pub fn slashed_exec(p: &[char]) -> (r: Vec<char>)
    ensures
        r@ == slashed(p@),
{
    let mut r: Vec<char> = Vec::new();
    let mut i: usize = 0;
    while i < p.len()
        invariant
            i <= p.len(),
            r@ == slashed(p@.take(i as int)),
        decreases p.len() - i,
    {
        let c = if p[i] == '\\' { '/' } else { p[i] };
        r.push(c);
        proof {
            assert(slashed(p@.take(i as int + 1)) =~= slashed(p@.take(i as int)).push(c));
        }
        i = i + 1;
    }
    proof {
        assert(p@.take(p@.len() as int) =~= p@);
    }
    r
}

pub open spec fn has_char(s: Seq<char>, c: char) -> bool {
    find_char_from(s, c, 0) >= 0
}

/// A non-empty relative path with forward slashes whose every component is
/// `Component::Normal`: no root, no leading `.`, no `..` anywhere.
pub open spec fn is_safe_relative(s: Seq<char>) -> bool {
    &&& s.len() > 0
    &&& !has_char(s, '\\')
    &&& s[0] != '/'
    &&& pieces(s)[0] != dot()
    &&& forall|i: int| 0 <= i < pieces(s).len() ==> #[trigger] pieces(s)[i] != dot_dot()
}

/// Joins components with `/`.
pub open spec fn join_components(cs: Seq<Seq<char>>) -> Seq<char>
    decreases cs.len(),
{
    if cs.len() == 0 {
        Seq::empty()
    } else if cs.len() == 1 {
        cs[0]
    } else {
        cs[0] + seq!['/'] + join_components(cs.drop_first())
    }
}

/// `Path::join` of a relative path onto a base, as displayed with `/`.
pub open spec fn join_path(base: Seq<char>, rel: Seq<char>) -> Seq<char> {
    if base.len() == 0 {
        rel
    } else if base.last() == '/' {
        base + rel
    } else {
        base + seq!['/'] + rel
    }
}

/// `Path::starts_with` on components.
pub open spec fn starts_with_components(path: Seq<Seq<char>>, prefix: Seq<Seq<char>>) -> bool {
    prefix.len() <= path.len() && path.take(prefix.len() as int) == prefix
}

// ----------------------------------------------------------------------

proof fn lemma_pieces_from_nonempty(s: Seq<char>, from: int)
    requires
        0 <= from <= s.len(),
    ensures
        pieces_from(s, from).len() >= 1,
        find_char_from(s, '/', from) < 0 ==> pieces_from(s, from) == seq![s.subrange(from, s.len() as int)],
        find_char_from(s, '/', from) >= 0 ==> pieces_from(s, from)[0] == s.subrange(from, find_char_from(s, '/', from)),
{
    lemma_find_char_from_bounds(s, '/', from);
}

/// The `/`-separated pieces of a path.
pub fn pieces_exec(s: &[char]) -> (r: Vec<Vec<char>>)
    ensures
        r@.len() == pieces(s@).len(),
        forall|i: int| 0 <= i < r@.len() ==> #[trigger] r@[i]@ == pieces(s@)[i],
{
    let mut r: Vec<Vec<char>> = Vec::new();
    let mut from: usize = 0;
    loop
        invariant
            from <= s.len(),
            pieces(s@) == r@.map_values(|l: Vec<char>| l@) + pieces_from(s@, from as int),
        decreases s.len() + 1 - from,
    {
        proof {
            lemma_find_char_from_bounds(s@, '/', from as int);
        }
        match find_char_exec(s, '/', from) {
            Some(k) => {
                let piece = slice_chars(s, from, k);
                proof {
                    assert(r@.push(piece).map_values(|l: Vec<char>| l@) =~= r@.map_values(|l: Vec<char>| l@).push(piece@));
                }
                r.push(piece);
                from = k + 1;
            }
            None => {
                let piece = slice_chars(s, from, s.len());
                proof {
                    assert(r@.push(piece).map_values(|l: Vec<char>| l@) =~= r@.map_values(|l: Vec<char>| l@).push(piece@));
                    assert(pieces(s@) =~= r@.push(piece).map_values(|l: Vec<char>| l@));
                }
                r.push(piece);
                return r;
            }
        }
    }
}

pub fn dot_exec() -> (r: Vec<char>)
    ensures
        r@ == dot(),
{
    let mut r = Vec::new();
    r.push('.');
    proof {
        assert(r@ =~= dot());
    }
    r
}

pub fn dot_dot_exec() -> (r: Vec<char>)
    ensures
        r@ == dot_dot(),
{
    let mut r = Vec::new();
    r.push('.');
    r.push('.');
    proof {
        assert(r@ =~= dot_dot());
    }
    r
}

pub fn is_normal_piece_exec(p: &[char]) -> (r: bool)
    ensures
        r == is_normal_piece(p@),
{
    let d = dot_exec();
    p.len() > 0 && !chars_eq(p, &d)
}

proof fn lemma_normals_push(ps: Seq<Seq<char>>, p: Seq<char>)
    ensures
        normals(ps.push(p)) == if is_normal_piece(p) { normals(ps).push(p) } else { normals(ps) },
    decreases ps.len(),
{
    if ps.len() == 0 {
        assert(ps.push(p).drop_first() =~= Seq::<Seq<char>>::empty());
        assert(normals(Seq::<Seq<char>>::empty()) =~= Seq::<Seq<char>>::empty());
        if is_normal_piece(p) {
            assert(normals(ps.push(p)) =~= seq![p]);
            assert(normals(ps).push(p) =~= seq![p]);
        }
    } else {
        assert(ps.push(p).drop_first() =~= ps.drop_first().push(p));
        lemma_normals_push(ps.drop_first(), p);
        if is_normal_piece(ps[0]) {
            assert(seq![ps[0]] + normals(ps.drop_first()).push(p) =~= (seq![ps[0]] + normals(ps.drop_first())).push(p));
        }
    }
}

/// The normal components of a path (`Path::components` restricted to `Normal`).
pub fn components_exec(s: &[char]) -> (r: Vec<Vec<char>>)
    ensures
        r@.len() == components(s@).len(),
        forall|i: int| 0 <= i < r@.len() ==> #[trigger] r@[i]@ == components(s@)[i],
{
    let ps = pieces_exec(s);
    let ghost psv = ps@.map_values(|l: Vec<char>| l@);
    proof {
        assert(psv =~= pieces(s@));
    }
    let mut r: Vec<Vec<char>> = Vec::new();
    let mut i: usize = 0;
    while i < ps.len()
        invariant
            i <= ps.len(),
            psv == ps@.map_values(|l: Vec<char>| l@),
            r@.map_values(|l: Vec<char>| l@) == normals(psv.take(i as int)),
        decreases ps.len() - i,
    {
        let p = slice_chars(&ps[i], 0, ps[i].len());
        proof {
            assert(ps[i as int]@.subrange(0, ps[i as int]@.len() as int) =~= ps[i as int]@);
            assert(psv.take(i as int + 1) =~= psv.take(i as int).push(psv[i as int]));
            lemma_normals_push(psv.take(i as int), psv[i as int]);
        }
        if is_normal_piece_exec(&p) {
            proof {
                assert(r@.push(p).map_values(|l: Vec<char>| l@) =~= r@.map_values(|l: Vec<char>| l@).push(p@));
            }
            r.push(p);
        }
        i = i + 1;
    }
    proof {
        assert(psv.take(psv.len() as int) =~= psv);
        assert(r@.map_values(|l: Vec<char>| l@) =~= components(s@));
        assert forall|j: int| 0 <= j < r@.len() implies #[trigger] r@[j]@ == components(s@)[j] by {
            assert(r@.map_values(|l: Vec<char>| l@)[j] == r@[j]@);
        }
    }
    r
}

/// Whether a path is a safe forward-slash relative path.
pub fn is_safe_relative_exec(s: &[char]) -> (r: bool)
    ensures
        r == is_safe_relative(s@),
{
    if s.len() == 0 {
        return false;
    }
    if find_char_exec(s, '\\', 0).is_some() || s[0] == '/' {
        return false;
    }
    let ps = pieces_exec(s);
    proof {
        lemma_pieces_from_nonempty(s@, 0);
    }
    let d = dot_exec();
    if chars_eq(&ps[0], &d) {
        return false;
    }
    let dd = dot_dot_exec();
    let mut i: usize = 0;
    while i < ps.len()
        invariant
            i <= ps.len(),
            ps@.len() == pieces(s@).len(),
            forall|j: int| 0 <= j < ps@.len() ==> #[trigger] ps@[j]@ == pieces(s@)[j],
            dd@ == dot_dot(),
            forall|j: int| 0 <= j < i ==> #[trigger] pieces(s@)[j] != dot_dot(),
        decreases ps.len() - i,
    {
        if chars_eq(&ps[i], &dd) {
            return false;
        }
        i = i + 1;
    }
    true
}

/// Joins components with `/`.
pub fn join_components_exec(cs: &Vec<Vec<char>>) -> (r: Vec<char>)
    ensures
        r@ == join_components(cs@.map_values(|l: Vec<char>| l@)),
{
    let ghost csv = cs@.map_values(|l: Vec<char>| l@);
    let mut r: Vec<char> = Vec::new();
    if cs.len() == 0 {
        proof {
            assert(r@ =~= join_components(csv));
        }
        return r;
    }
    let mut i: usize = cs.len();
    r = slice_chars(&cs[i - 1], 0, cs[i - 1].len());
    proof {
        assert(cs@[i - 1]@.subrange(0, cs@[i - 1]@.len() as int) =~= cs@[i - 1]@);
        assert(csv.skip(i - 1) =~= seq![csv[i - 1]]);
    }
    i = i - 1;
    while i > 0
        invariant
            0 <= i < cs.len(),
            csv == cs@.map_values(|l: Vec<char>| l@),
            r@ == join_components(csv.skip(i as int)),
        decreases i,
    {
        let mut head = slice_chars(&cs[i - 1], 0, cs[i - 1].len());
        head.push('/');
        let next = concat_chars(&head, &r);
        proof {
            assert(cs@[i - 1]@.subrange(0, cs@[i - 1]@.len() as int) =~= cs@[i - 1]@);
            let t = csv.skip(i - 1);
            assert(t.drop_first() =~= csv.skip(i as int));
            assert(t.len() >= 2);
            assert(t[0] == csv[i - 1]);
            assert(next@ =~= t[0] + seq!['/'] + join_components(t.drop_first()));
        }
        r = next;
        i = i - 1;
    }
    proof {
        assert(csv.skip(0) =~= csv);
    }
    r
}

/// `Path::join` of a relative path onto a base, rendered with `/`.
pub fn join_path_exec(base: &[char], rel: &[char]) -> (r: Vec<char>)
    ensures
        r@ == join_path(base@, rel@),
{
    if base.len() == 0 {
        slice_chars(rel, 0, rel.len())
    } else if base[base.len() - 1] == '/' {
        concat_chars(base, rel)
    } else {
        let mut b = slice_chars(base, 0, base.len());
        b.push('/');
        proof {
            assert(base@.subrange(0, base@.len() as int) =~= base@);
        }
        concat_chars(&b, rel)
    }
}


// ----------------------------------------------------------------------
// Checked relative paths
// ----------------------------------------------------------------------

pub open spec fn relative_format_error() -> Seq<char> {
    "Package paths must be non-empty relative paths using forward slashes."@
}

pub open spec fn relative_component_error() -> Seq<char> {
    "Package paths cannot be absolute or use . or .. segments."@
}

/// What `safe_relative_path` answers for `value`.
pub open spec fn relative_path_outcome(value: Seq<char>) -> Result<Seq<char>, Seq<char>> {
    if value.len() == 0 || has_char(value, '\\') {
        Err(relative_format_error())
    } else if !is_safe_relative(value) {
        Err(relative_component_error())
    } else {
        Ok(value)
    }
}

/// Accepts a non-empty relative package path that uses forward slashes and
/// has only normal components; returns it unchanged.
pub fn safe_relative_path(value: &str) -> (r: Result<String, String>)
    ensures
        match r {
            Ok(p) => relative_path_outcome(value@) == Ok::<Seq<char>, Seq<char>>(p@),
            Err(e) => relative_path_outcome(value@) == Err::<Seq<char>, Seq<char>>(e@),
        },
{
    let v = chars_of(value);
    if v.len() == 0 || find_char_exec(&v, '\\', 0).is_some() {
        return Err(owned("Package paths must be non-empty relative paths using forward slashes."));
    }
    if !is_safe_relative_exec(&v) {
        return Err(owned("Package paths cannot be absolute or use . or .. segments."));
    }
    Ok(owned(value))
}

pub open spec fn campaign_target_wol() -> Seq<char> {
    "Maps/Campaign"@
}

pub open spec fn campaign_target_hots() -> Seq<char> {
    "Maps/Campaign/swarm"@
}

pub open spec fn campaign_target_lotv() -> Seq<char> {
    "Maps/Campaign/void"@
}

pub open spec fn campaign_target_nco() -> Seq<char> {
    "Maps/Campaign/nova"@
}

/// One of the four campaign branch directories CCM manages.
pub open spec fn is_campaign_target(v: Seq<char>) -> bool {
    v == campaign_target_wol() || v == campaign_target_hots() || v == campaign_target_lotv()
        || v == campaign_target_nco()
}

pub fn is_campaign_target_exec(v: &[char]) -> (r: bool)
    ensures
        r == is_campaign_target(v@),
{
    chars_eq(v, &chars_of("Maps/Campaign")) || chars_eq(v, &chars_of("Maps/Campaign/swarm"))
        || chars_eq(v, &chars_of("Maps/Campaign/void")) || chars_eq(v, &chars_of("Maps/Campaign/nova"))
}

pub open spec fn campaign_target_error() -> Seq<char> {
    "Managed installation state has an invalid campaign target."@
}

pub open spec fn campaign_target_outcome(value: Seq<char>) -> Result<Seq<char>, Seq<char>> {
    match relative_path_outcome(value) {
        Err(e) => Err(e),
        Ok(p) => if is_campaign_target(value) { Ok(p) } else { Err(campaign_target_error()) },
    }
}

/// Accepts exactly one of the four campaign branch directories.
pub fn safe_campaign_target(value: &str) -> (r: Result<String, String>)
    ensures
        match r {
            Ok(p) => campaign_target_outcome(value@) == Ok::<Seq<char>, Seq<char>>(p@),
            Err(e) => campaign_target_outcome(value@) == Err::<Seq<char>, Seq<char>>(e@),
        },
{
    let path = safe_relative_path(value)?;
    if is_campaign_target_exec(&chars_of(value)) {
        Ok(path)
    } else {
        Err(owned("Managed installation state has an invalid campaign target."))
    }
}

pub open spec fn backup_path_error() -> Seq<char> {
    "Managed installation state has an invalid backup path."@
}

pub open spec fn backup_path_outcome(value: Seq<char>) -> Result<Seq<char>, Seq<char>> {
    match relative_path_outcome(value) {
        Err(e) => Err(e),
        Ok(p) => if components(value).len() > 0 && components(value)[0] == "backups"@ {
            Ok(p)
        } else {
            Err(backup_path_error())
        },
    }
}

/// Accepts a safe relative path inside CCM's `backups` directory.
pub fn safe_backup_path(value: &str) -> (r: Result<String, String>)
    ensures
        match r {
            Ok(p) => backup_path_outcome(value@) == Ok::<Seq<char>, Seq<char>>(p@),
            Err(e) => backup_path_outcome(value@) == Err::<Seq<char>, Seq<char>>(e@),
        },
{
    let path = safe_relative_path(value)?;
    let cs = components_exec(&chars_of(value));
    if cs.len() > 0 && chars_eq(&cs[0], &chars_of("backups")) {
        Ok(path)
    } else {
        Err(owned("Managed installation state has an invalid backup path."))
    }
}

// ----------------------------------------------------------------------
// Dependencies (`*.SC2Mod` roots under `Mods`)
// ----------------------------------------------------------------------

pub open spec fn is_mod_name(name: Seq<char>) -> bool {
    ends_with(lower(name), ".sc2mod"@)
}

/// A directory that belongs to the WoL branch although it lives directly in
/// `Maps/Campaign`: a `.SC2Map` or `.SC2Mod` folder.
pub open spec fn is_wol_owned_asset_directory(name: Seq<char>) -> bool {
    ends_with(lower(name), ".sc2map"@) || ends_with(lower(name), ".sc2mod"@)
}

pub fn is_mod_name_exec(name: &[char]) -> (r: bool)
    ensures
        r == is_mod_name(name@),
{
    ends_with_exec(&lower_exec(name), &chars_of(".sc2mod"))
}

pub fn is_wol_owned_asset_directory_exec(name: &[char]) -> (r: bool)
    ensures
        r == is_wol_owned_asset_directory(name@),
{
    let l = lower_exec(name);
    ends_with_exec(&l, &chars_of(".sc2map")) || ends_with_exec(&l, &chars_of(".sc2mod"))
}

/// Index of the first `.SC2Mod` component at or after `from`, or -1.
pub open spec fn first_mod_index(cs: Seq<Seq<char>>, from: int) -> int
    decreases cs.len() - from,
{
    if from < 0 || from >= cs.len() {
        -1
    } else if is_mod_name(cs[from]) {
        from
    } else {
        first_mod_index(cs, from + 1)
    }
}

pub proof fn lemma_first_mod_index(cs: Seq<Seq<char>>, from: int)
    ensures
        first_mod_index(cs, from) == -1 || (0 <= from <= first_mod_index(cs, from) < cs.len()
            && is_mod_name(cs[first_mod_index(cs, from)])),
    decreases cs.len() - from,
{
    if from >= 0 && from < cs.len() && !is_mod_name(cs[from]) {
        lemma_first_mod_index(cs, from + 1);
    }
}

fn first_mod_index_exec(cs: &Vec<Vec<char>>, from: usize) -> (r: Option<usize>)
    ensures
        match r {
            Some(i) => i as int == first_mod_index(cs@.map_values(|l: Vec<char>| l@), from as int) && i < cs.len(),
            None => first_mod_index(cs@.map_values(|l: Vec<char>| l@), from as int) == -1,
        },
{
    let ghost csv = cs@.map_values(|l: Vec<char>| l@);
    let mut i = from;
    while i < cs.len()
        invariant
            from <= i,
            csv == cs@.map_values(|l: Vec<char>| l@),
            first_mod_index(csv, from as int) == first_mod_index(csv, i as int),
        decreases cs.len() - i,
    {
        if is_mod_name_exec(&cs[i]) {
            return Some(i);
        }
        i = i + 1;
    }
    None
}

/// Where a package member is installed when it lies inside a `.SC2Mod`
/// directory: under `Mods`, from that directory on.
pub open spec fn dependency_destination_spec(relative: Seq<char>) -> Option<Seq<char>> {
    let cs = components(relative);
    let k = first_mod_index(cs, 0);
    if k < 0 {
        None
    } else {
        Some(join_components(seq!["Mods"@] + cs.skip(k)))
    }
}

pub fn copy_components(cs: &Vec<Vec<char>>, from: usize) -> (r: Vec<Vec<char>>)
    requires
        from <= cs.len(),
    ensures
        r@.map_values(|l: Vec<char>| l@) == cs@.map_values(|l: Vec<char>| l@).skip(from as int),
{
    let mut r: Vec<Vec<char>> = Vec::new();
    let mut i = from;
    while i < cs.len()
        invariant
            from <= i <= cs.len(),
            r@.map_values(|l: Vec<char>| l@) == cs@.map_values(|l: Vec<char>| l@).subrange(from as int, i as int),
        decreases cs.len() - i,
    {
        let c = slice_chars(&cs[i], 0, cs[i].len());
        proof {
            assert(cs@[i as int]@.subrange(0, cs@[i as int]@.len() as int) =~= cs@[i as int]@);
            assert(r@.push(c).map_values(|l: Vec<char>| l@) =~= r@.map_values(|l: Vec<char>| l@).push(c@));
            assert(cs@.map_values(|l: Vec<char>| l@).subrange(from as int, i as int + 1)
                =~= cs@.map_values(|l: Vec<char>| l@).subrange(from as int, i as int).push(c@));
        }
        r.push(c);
        i = i + 1;
    }
    proof {
        assert(cs@.map_values(|l: Vec<char>| l@).subrange(from as int, cs@.len() as int)
            =~= cs@.map_values(|l: Vec<char>| l@).skip(from as int));
    }
    r
}

/// `dependency_destination`: the `Mods/...` destination of a package member
/// that lies inside a `.SC2Mod` directory, if it does.
pub fn dependency_destination(relative: &str) -> (r: Option<String>)
    ensures
        match r {
            Some(d) => dependency_destination_spec(relative@) == Some(d@),
            None => dependency_destination_spec(relative@) is None,
        },
{
    let cs = components_exec(&chars_of(relative));
    proof {
        assert(cs@.map_values(|l: Vec<char>| l@) =~= components(relative@));
    }
    match first_mod_index_exec(&cs, 0) {
        None => None,
        Some(k) => {
            let mut parts: Vec<Vec<char>> = Vec::new();
            parts.push(chars_of("Mods"));
            let rest = copy_components(&cs, k);
            let mut i: usize = 0;
            while i < rest.len()
                invariant
                    i <= rest.len(),
                    parts@.map_values(|l: Vec<char>| l@) == seq!["Mods"@] + rest@.map_values(|l: Vec<char>| l@).take(i as int),
                decreases rest.len() - i,
            {
                let c = slice_chars(&rest[i], 0, rest[i].len());
                proof {
                    assert(rest@[i as int]@.subrange(0, rest@[i as int]@.len() as int) =~= rest@[i as int]@);
                    assert(parts@.push(c).map_values(|l: Vec<char>| l@) =~= parts@.map_values(|l: Vec<char>| l@).push(c@));
                    assert(rest@.map_values(|l: Vec<char>| l@).take(i as int + 1)
                        =~= rest@.map_values(|l: Vec<char>| l@).take(i as int).push(c@));
                }
                parts.push(c);
                i = i + 1;
            }
            proof {
                assert(rest@.map_values(|l: Vec<char>| l@).take(rest@.len() as int) =~= rest@.map_values(|l: Vec<char>| l@));
                assert(parts@.map_values(|l: Vec<char>| l@) =~= seq!["Mods"@] + components(relative@).skip(k as int));
            }
            Some(string_from_chars(&join_components_exec(&parts)))
        },
    }
}

/// The dependency root (`Mods/<Name>.SC2Mod`) that a game destination lies in.
pub open spec fn dependency_root_spec(destination: Seq<char>) -> Option<Seq<char>> {
    let cs = components(destination);
    if cs.len() < 2 || lower(cs[0]) != "mods"@ {
        None
    } else {
        let k = first_mod_index(cs, 1);
        if k < 0 {
            None
        } else {
            Some("Mods"@ + seq!['/'] + cs[k])
        }
    }
}

/// The `Mods/<name>.SC2Mod` root a dependency destination lies in.
pub fn dependency_root_from_destination(destination: &str) -> (r: Option<String>)
    ensures
        match r {
            Some(d) => dependency_root_spec(destination@) == Some(d@),
            None => dependency_root_spec(destination@) is None,
        },
{
    let cs = components_exec(&chars_of(destination));
    proof {
        assert(cs@.map_values(|l: Vec<char>| l@) =~= components(destination@));
    }
    if cs.len() < 2 || !chars_eq(&lower_exec(&cs[0]), &chars_of("mods")) {
        return None;
    }
    match first_mod_index_exec(&cs, 1) {
        None => None,
        Some(k) => {
            let mut root = chars_of("Mods");
            root.push('/');
            let root = concat_chars(&root, &cs[k]);
            Some(string_from_chars(&root))
        },
    }
}

/// The dependency roots of a set of game destinations: each root once.
pub open spec fn roots_of(destinations: Seq<Seq<char>>) -> Set<Seq<char>> {
    Set::new(|r: Seq<char>| exists|i: int| 0 <= i < destinations.len() && dependency_root_spec(#[trigger] destinations[i]) == Some(r))
}

/// The distinct dependency roots a list of destinations (of managed,
/// staged or planned files) lies in. They are gathered as a set, so no order
/// is promised.
pub fn dependency_roots(destinations: &[String]) -> (r: Vec<String>)
    ensures
        crate::text::views(r@).no_duplicates(),
        crate::text::views(r@).to_set() == roots_of(crate::text::views(destinations@)),
{
    let ghost dv = crate::text::views(destinations@);
    let mut out: Vec<String> = Vec::new();
    let mut i: usize = 0;
    while i < destinations.len()
        invariant
            i <= destinations.len(),
            dv == crate::text::views(destinations@),
            crate::text::views(out@).no_duplicates(),
            crate::text::views(out@).to_set() == roots_of(dv.take(i as int)),
        decreases destinations.len() - i,
    {
        let ghost before = out@;
        proof {
            assert(dv.take(i as int + 1) =~= dv.take(i as int).push(dv[i as int]));
        }
        match dependency_root_from_destination(destinations[i].as_str()) {
            Some(root) => {
                let rc = chars_of(root.as_str());
                let mut seen = false;
                let mut j: usize = 0;
                while j < out.len()
                    invariant
                        j <= out.len(),
                        rc@ == root@,
                        !seen ==> forall|k: int| 0 <= k < j ==> #[trigger] crate::text::views(out@)[k] != root@,
                        seen ==> crate::text::views(out@).contains(root@),
                    decreases out.len() - j,
                {
                    if chars_eq(&chars_of(out[j].as_str()), &rc) {
                        proof {
                            assert(crate::text::views(out@)[j as int] == root@);
                        }
                        seen = true;
                    }
                    j = j + 1;
                }
                if !seen {
                    out.push(root);
                    proof {
                        assert(crate::text::views(out@) =~= crate::text::views(before).push(rc@));
                        assert(crate::text::views(out@).to_set() =~= roots_of(dv.take(i as int + 1))) by {
                            assert forall|x: Seq<char>| crate::text::views(out@).to_set().contains(x) implies roots_of(
                                dv.take(i as int + 1),
                            ).contains(x) by {
                                if x == rc@ {
                                    assert(dv.take(i as int + 1)[i as int] == dv[i as int]);
                                } else {
                                    assert(crate::text::views(before).contains(x));
                                    assert(roots_of(dv.take(i as int)).contains(x));
                                    let w = choose|w: int| 0 <= w < dv.take(i as int).len() && dependency_root_spec(
                                        #[trigger] dv.take(i as int)[w],
                                    ) == Some(x);
                                    assert(dv.take(i as int + 1)[w] == dv.take(i as int)[w]);
                                }
                            }
                            assert forall|x: Seq<char>| roots_of(dv.take(i as int + 1)).contains(x) implies crate::text::views(
                                out@,
                            ).to_set().contains(x) by {
                                let w = choose|w: int| 0 <= w < dv.take(i as int + 1).len() && dependency_root_spec(
                                    #[trigger] dv.take(i as int + 1)[w],
                                ) == Some(x);
                                if w < i {
                                    assert(dv.take(i as int)[w] == dv.take(i as int + 1)[w]);
                                    assert(roots_of(dv.take(i as int)).contains(x));
                                    assert(crate::text::views(before).to_set().contains(x));
                                    assert(crate::text::views(before).contains(x));
                                    let k = choose|k: int| 0 <= k < crate::text::views(before).len() && crate::text::views(before)[k] == x;
                                    assert(crate::text::views(out@)[k] == x);
                                    assert(crate::text::views(out@).contains(x));
                                } else {
                                    assert(crate::text::views(out@)[before.len() as int] == x);
                                }
                            }
                        }
                    }
                } else {
                    proof {
                        assert(crate::text::views(out@).to_set() =~= roots_of(dv.take(i as int + 1))) by {
                            assert forall|x: Seq<char>| roots_of(dv.take(i as int + 1)).contains(x) implies crate::text::views(
                                out@,
                            ).to_set().contains(x) by {
                                let w = choose|w: int| 0 <= w < dv.take(i as int + 1).len() && dependency_root_spec(
                                    #[trigger] dv.take(i as int + 1)[w],
                                ) == Some(x);
                                if w < i {
                                    assert(dv.take(i as int)[w] == dv.take(i as int + 1)[w]);
                                    assert(roots_of(dv.take(i as int)).contains(x));
                                }
                            }
                            assert forall|x: Seq<char>| crate::text::views(out@).to_set().contains(x) implies roots_of(
                                dv.take(i as int + 1),
                            ).contains(x) by {
                                assert(roots_of(dv.take(i as int)).contains(x));
                                let w = choose|w: int| 0 <= w < dv.take(i as int).len() && dependency_root_spec(
                                    #[trigger] dv.take(i as int)[w],
                                ) == Some(x);
                                assert(dv.take(i as int + 1)[w] == dv.take(i as int)[w]);
                            }
                        }
                    }
                }
            },
            None => {
                proof {
                    assert(roots_of(dv.take(i as int + 1)) =~= roots_of(dv.take(i as int))) by {
                        assert forall|x: Seq<char>| roots_of(dv.take(i as int + 1)).contains(x) implies roots_of(
                            dv.take(i as int),
                        ).contains(x) by {
                            let w = choose|w: int| 0 <= w < dv.take(i as int + 1).len() && dependency_root_spec(
                                #[trigger] dv.take(i as int + 1)[w],
                            ) == Some(x);
                            assert(w < i);
                            assert(dv.take(i as int)[w] == dv.take(i as int + 1)[w]);
                        }
                        assert forall|x: Seq<char>| roots_of(dv.take(i as int)).contains(x) implies roots_of(
                            dv.take(i as int + 1),
                        ).contains(x) by {
                            let w = choose|w: int| 0 <= w < dv.take(i as int).len() && dependency_root_spec(
                                #[trigger] dv.take(i as int)[w],
                            ) == Some(x);
                            assert(dv.take(i as int + 1)[w] == dv.take(i as int)[w]);
                        }
                    }
                }
            },
        }
        i = i + 1;
    }
    proof {
        assert(dv.take(i as int) =~= dv);
    }
    out
}

/// The lower-cased file name of each dependency root (`Mods/X.SC2Mod` gives
/// `x.sc2mod`): how saves are matched to a campaign's dependencies.
pub open spec fn root_name(root: Seq<char>) -> Option<Seq<char>> {
    let cs = components(root);
    if cs.len() > 0 && cs.last() != dot_dot() {
        Some(lower(cs.last()))
    } else {
        None
    }
}

pub open spec fn names_of_roots(roots: Seq<Seq<char>>) -> Seq<Seq<char>>
    decreases roots.len(),
{
    if roots.len() == 0 {
        Seq::empty()
    } else {
        names_of_roots(roots.drop_last()) + match root_name(roots.last()) {
            Some(n) => seq![n],
            None => Seq::empty(),
        }
    }
}

/// The dependency names of a list of roots, in order.
pub fn dependency_names(roots: &[String]) -> (r: Vec<String>)
    ensures
        crate::text::views(r@) == names_of_roots(crate::text::views(roots@)),
{
    let ghost rv = crate::text::views(roots@);
    let mut out: Vec<String> = Vec::new();
    let mut i: usize = 0;
    while i < roots.len()
        invariant
            i <= roots.len(),
            rv == crate::text::views(roots@),
            crate::text::views(out@) == names_of_roots(rv.take(i as int)),
        decreases roots.len() - i,
    {
        let ghost before = out@;
        proof {
            assert(rv.take(i as int + 1).drop_last() =~= rv.take(i as int));
        }
        let cs = components_exec(&chars_of(roots[i].as_str()));
        if cs.len() > 0 && !chars_eq(&cs[cs.len() - 1], &dot_dot_exec()) {
            let name = string_from_chars(&lower_exec(&cs[cs.len() - 1]));
            out.push(name);
            proof {
                assert(crate::text::views(out@) =~= crate::text::views(before).push(name@));
            }
        }
        i = i + 1;
    }
    proof {
        assert(rv.take(i as int) =~= rv);
    }
    out
}


pub open spec fn package_destination_outcome(target: Seq<char>, relative: Seq<char>) -> Result<Seq<char>, Seq<char>> {
    match dependency_destination_spec(relative) {
        Some(d) => Ok(d),
        None => match relative_path_outcome(target) {
            Err(e) => Err(e),
            Ok(t) => Ok(join_path(t, relative)),
        },
    }
}

/// Where a package member (given relative to the package content root) is
/// installed: dependencies under `Mods`, everything else under the target.
pub fn package_destination(target_path: &str, relative: &str) -> (r: Result<String, String>)
    ensures
        match r {
            Ok(p) => package_destination_outcome(target_path@, relative@) == Ok::<Seq<char>, Seq<char>>(p@),
            Err(e) => package_destination_outcome(target_path@, relative@) == Err::<Seq<char>, Seq<char>>(e@),
        },
{
    if let Some(destination) = dependency_destination(relative) {
        return Ok(destination);
    }
    let target = safe_relative_path(target_path)?;
    let joined = join_path_exec(&chars_of(target.as_str()), &chars_of(relative));
    Ok(string_from_chars(&joined))
}

// ----------------------------------------------------------------------
// CCM's own files inside a game directory
// ----------------------------------------------------------------------

pub open spec fn manager_directory() -> Seq<char> {
    ".ccm-reborn"@
}

/// `manager_root`: `<game>/.ccm-reborn`.
pub open spec fn manager_root_spec(root: Seq<char>) -> Seq<char> {
    join_path(root, manager_directory())
}

pub fn manager_root(root: &str) -> (r: String)
    ensures
        r@ == manager_root_spec(root@),
{
    string_from_chars(&join_path_exec(&chars_of(root), &chars_of(".ccm-reborn")))
}

/// A campaign target flattened into one file-name stem (`/` becomes `_`).
pub open spec fn slot_stem(target: Seq<char>) -> Seq<char> {
    target.map_values(|c: char| if c == '/' { '_' } else { c })
}

fn slot_stem_exec(target: &[char]) -> (r: Vec<char>)
    ensures
        r@ == slot_stem(target@),
{
    let mut r: Vec<char> = Vec::new();
    let mut i: usize = 0;
    while i < target.len()
        invariant
            i <= target.len(),
            r@ == slot_stem(target@.take(i as int)),
        decreases target.len() - i,
    {
        let c = target[i];
        r.push(if c == '/' { '_' } else { c });
        proof {
            assert(target@.take(i as int + 1) =~= target@.take(i as int).push(c));
            assert(slot_stem(target@.take(i as int + 1)) =~= slot_stem(target@.take(i as int)).push(if c == '/' { '_' } else { c }));
        }
        i = i + 1;
    }
    proof {
        assert(target@.take(target@.len() as int) =~= target@);
    }
    r
}

/// `<game>/.ccm-reborn/<directory>/<target with / as _>.json`.
pub open spec fn slot_file_spec(root: Seq<char>, directory: Seq<char>, target: Seq<char>) -> Seq<char> {
    join_path(join_path(manager_root_spec(root), directory), slot_stem(target) + ".json"@)
}

fn slot_file(root: &str, directory: &str, target: &str) -> (r: Result<String, String>)
    ensures
        match r {
            Ok(p) => campaign_target_outcome(target@) is Ok && p@ == slot_file_spec(root@, directory@, target@),
            Err(e) => campaign_target_outcome(target@) == Err::<Seq<char>, Seq<char>>(e@),
        },
{
    let checked = safe_campaign_target(target)?;
    let manager = manager_root(root);
    let dir = join_path_exec(&chars_of(manager.as_str()), &chars_of(directory));
    let name = concat_chars(&slot_stem_exec(&chars_of(checked.as_str())), &chars_of(".json"));
    Ok(string_from_chars(&join_path_exec(&dir, &name)))
}

/// `installed_manifest_path`: the exact package inventory of one branch.
pub fn installed_manifest_path(root: &str, target_path: &str) -> (r: Result<String, String>)
    ensures
        match r {
            Ok(p) => campaign_target_outcome(target_path@) is Ok
                && p@ == slot_file_spec(root@, "installed"@, target_path@),
            Err(e) => campaign_target_outcome(target_path@) == Err::<Seq<char>, Seq<char>>(e@),
        },
{
    slot_file(root, "installed", target_path)
}

/// `state_path_for_target`: the managed-state record of one branch.
pub fn state_path_for_target(root: &str, target: &str) -> (r: Result<String, String>)
    ensures
        match r {
            Ok(p) => campaign_target_outcome(target@) is Ok && p@ == slot_file_spec(root@, "states"@, target@),
            Err(e) => campaign_target_outcome(target@) == Err::<Seq<char>, Seq<char>>(e@),
        },
{
    slot_file(root, "states", target)
}

/// `state_path`: the legacy single-slot record.
pub fn state_path(root: &str) -> (r: String)
    ensures
        r@ == join_path(manager_root_spec(root@), "state.json"@),
{
    let m = manager_root(root);
    string_from_chars(&join_path_exec(&chars_of(m.as_str()), &chars_of("state.json")))
}

/// `journal_path`: the legacy game-directory transaction journal.
pub fn journal_path(root: &str) -> (r: String)
    ensures
        r@ == join_path(manager_root_spec(root@), "transaction.json"@),
{
    let m = manager_root(root);
    string_from_chars(&join_path_exec(&chars_of(m.as_str()), &chars_of("transaction.json")))
}

/// `pending_install_path`: the profile-aware intent record.
pub fn pending_install_path(root: &str) -> (r: String)
    ensures
        r@ == join_path(manager_root_spec(root@), "pending-install.json"@),
{
    let m = manager_root(root);
    string_from_chars(&join_path_exec(&chars_of(m.as_str()), &chars_of("pending-install.json")))
}

} // verus!
