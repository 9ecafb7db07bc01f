//! CCM `metadata.txt`: decoding its bytes, reading its fields, and mapping
//! its `campaign=` value to a campaign branch.

use vstd::prelude::*;
use vstd::utf8::{is_scalar, valid_utf8, decode_utf8};
use crate::text::{
    chars_eq, chars_of, concat_chars, contains, contains_exec, lines, lines_exec, lower, lower_exec, owned,
    split_once, split_once_exec, string_from_chars, trim, trim_exec,
};

verus! {

// ----------------------------------------------------------------------
// Decoding
// ----------------------------------------------------------------------

/// `char::from_u32`: the character with that scalar value, if there is one.
#[verifier::external_body]
fn char_from_u32(v: u32) -> (r: Option<char>)
    ensures
        r is Some <==> is_scalar(v),
        r matches Some(c) ==> c == v as char,
{
    char::from_u32(v)
}

/// `String::from_utf8`: the text the bytes encode, if they are valid UTF-8.
#[verifier::external_body]
pub(crate) fn string_from_utf8(bytes: &[u8]) -> (r: Option<String>)
    ensures
        r is Some <==> valid_utf8(bytes@),
        r matches Some(s) ==> s@ == decode_utf8(bytes@),
{
    String::from_utf8(bytes.to_vec()).ok()
}

/// The 16-bit code units of a byte sequence (pairs of bytes; a final odd byte is ignored).
pub open spec fn utf16_units(bytes: Seq<u8>, little_endian: bool) -> Seq<u16> {
    Seq::new(bytes.len() / 2, |i: int| {
        let (lo, hi) = if little_endian { (bytes[2 * i], bytes[2 * i + 1]) } else { (bytes[2 * i + 1], bytes[2 * i]) };
        (lo as int + 256 * (hi as int)) as u16
    })
}

pub open spec fn is_high_surrogate(u: u16) -> bool {
    0xD800 <= u && u <= 0xDBFF
}

pub open spec fn is_low_surrogate(u: u16) -> bool {
    0xDC00 <= u && u <= 0xDFFF
}

pub open spec fn surrogate_pair_value(hi: u16, lo: u16) -> u32 {
    (0x10000 + (hi - 0xD800) * 0x400 + (lo - 0xDC00)) as u32
}

/// UTF-16 decoding (`String::from_utf16`): `None` on an unpaired surrogate.
pub open spec fn utf16_decode(units: Seq<u16>) -> Option<Seq<char>>
    decreases units.len(),
{
    if units.len() == 0 {
        Some(Seq::empty())
    } else if units[0] < 0xD800 || units[0] > 0xDFFF {
        match utf16_decode(units.drop_first()) {
            Some(rest) => Some(seq![(units[0] as u32) as char] + rest),
            None => None,
        }
    } else if is_high_surrogate(units[0]) && units.len() >= 2 && is_low_surrogate(units[1]) {
        match utf16_decode(units.skip(2)) {
            Some(rest) => Some(seq![surrogate_pair_value(units[0], units[1]) as char] + rest),
            None => None,
        }
    } else {
        None
    }
}

fn utf16_units_exec(bytes: &[u8], little_endian: bool) -> (r: Vec<u16>)
    ensures
        r@ == utf16_units(bytes@, little_endian),
{
    let mut r: Vec<u16> = Vec::new();
    let n = bytes.len() / 2;
    let mut i: usize = 0;
    while i < n
        invariant
            n == bytes.len() / 2,
            i <= n,
            r@ == utf16_units(bytes@, little_endian).take(i as int),
        decreases n - i,
    {
        let (lo, hi) = if little_endian { (bytes[2 * i], bytes[2 * i + 1]) } else { (bytes[2 * i + 1], bytes[2 * i]) };
        let unit: u16 = (lo as u16) + 256 * (hi as u16);
        proof {
            assert(utf16_units(bytes@, little_endian).take(i as int + 1)
                =~= utf16_units(bytes@, little_endian).take(i as int).push(unit));
        }
        r.push(unit);
        i = i + 1;
    }
    proof {
        assert(utf16_units(bytes@, little_endian).take(n as int) =~= utf16_units(bytes@, little_endian));
    }
    r
}

fn utf16_decode_exec(units: &[u16]) -> (r: Option<Vec<char>>)
    ensures
        match r {
            Some(v) => utf16_decode(units@) == Some(v@),
            None => utf16_decode(units@) is None,
        },
{
    let mut out: Vec<char> = Vec::new();
    let mut i: usize = 0;
    proof {
        assert(units@.skip(0) =~= units@);
    }
    while i < units.len()
        invariant
            i <= units.len(),
            utf16_decode(units@) == match utf16_decode(units@.skip(i as int)) {
                Some(rest) => Some(out@ + rest),
                None => None::<Seq<char>>,
            },
        decreases units.len() - i,
    {
        let u = units[i];
        let ghost rest = units@.skip(i as int);
        if u < 0xD800 || u > 0xDFFF {
            match char_from_u32(u as u32) {
                Some(c) => {
                    proof {
                        assert(rest.drop_first() =~= units@.skip(i as int + 1));
                        match utf16_decode(rest.drop_first()) {
                            Some(t) => {
                                assert(out@ + (seq![c] + t) =~= out@.push(c) + t);
                            },
                            None => {},
                        }
                    }
                    out.push(c);
                    i = i + 1;
                },
                None => {
                    return None;
                },
            }
        } else if u <= 0xDBFF && i + 1 < units.len() && 0xDC00 <= units[i + 1] && units[i + 1] <= 0xDFFF {
            let lo = units[i + 1];
            let v: u32 = 0x10000 + ((u - 0xD800) as u32) * 0x400 + ((lo - 0xDC00) as u32);
            match char_from_u32(v) {
                Some(c) => {
                    proof {
                        assert(rest.skip(2) =~= units@.skip(i as int + 2));
                        assert(v == surrogate_pair_value(u, lo));
                        match utf16_decode(rest.skip(2)) {
                            Some(t) => {
                                assert(out@ + (seq![c] + t) =~= out@.push(c) + t);
                            },
                            None => {},
                        }
                    }
                    out.push(c);
                    i = i + 2;
                },
                None => {
                    return None;
                },
            }
        } else {
            return None;
        }
    }
    proof {
        assert(units@.skip(i as int) =~= Seq::<u16>::empty());
        assert(out@ + Seq::<char>::empty() =~= out@);
    }
    Some(out)
}

pub open spec fn utf16_metadata_outcome(bytes: Seq<u8>, little_endian: bool) -> Result<Seq<char>, Seq<char>> {
    if bytes.len() % 2 != 0 {
        Err("metadata.txt has an incomplete UTF-16 character."@)
    } else {
        match utf16_decode(utf16_units(bytes, little_endian)) {
            Some(t) => Ok(t),
            None => Err("metadata.txt contains invalid UTF-16 text."@),
        }
    }
}

/// `decode_utf16_metadata`: UTF-16 text of the given byte order.
pub fn decode_utf16_metadata(bytes: &[u8], little_endian: bool) -> (r: Result<String, String>)
    ensures
        match r {
            Ok(t) => utf16_metadata_outcome(bytes@, little_endian) == Ok::<Seq<char>, Seq<char>>(t@),
            Err(e) => utf16_metadata_outcome(bytes@, little_endian) == Err::<Seq<char>, Seq<char>>(e@),
        },
{
    if bytes.len() % 2 != 0 {
        return Err(owned("metadata.txt has an incomplete UTF-16 character."));
    }
    let units = utf16_units_exec(bytes, little_endian);
    match utf16_decode_exec(&units) {
        Some(text) => Ok(string_from_chars(&text)),
        None => Err(owned("metadata.txt contains invalid UTF-16 text.")),
    }
}

pub open spec fn metadata_outcome(bytes: Seq<u8>) -> Result<Seq<char>, Seq<char>> {
    if bytes.len() >= 2 && bytes[0] == 0xff && bytes[1] == 0xfe {
        utf16_metadata_outcome(bytes.skip(2), true)
    } else if bytes.len() >= 2 && bytes[0] == 0xfe && bytes[1] == 0xff {
        utf16_metadata_outcome(bytes.skip(2), false)
    } else if valid_utf8(bytes) {
        Ok(decode_utf8(bytes))
    } else {
        Err("metadata.txt must be valid UTF-8 or UTF-16 text."@)
    }
}

fn skip_two(bytes: &[u8]) -> (r: Vec<u8>)
    requires
        bytes.len() >= 2,
    ensures
        r@ == bytes@.skip(2),
{
    let mut r: Vec<u8> = Vec::new();
    let mut i: usize = 2;
    while i < bytes.len()
        invariant
            2 <= i <= bytes.len(),
            r@ == bytes@.subrange(2, i as int),
        decreases bytes.len() - i,
    {
        r.push(bytes[i]);
        proof {
            assert(bytes@.subrange(2, i as int + 1) =~= bytes@.subrange(2, i as int).push(bytes@[i as int]));
        }
        i = i + 1;
    }
    proof {
        assert(bytes@.subrange(2, bytes@.len() as int) =~= bytes@.skip(2));
    }
    r
}

/// `decode_ccm_metadata`: UTF-16 (little- or big-endian, by byte-order mark)
/// or UTF-8 text.
pub fn decode_ccm_metadata(bytes: &[u8]) -> (r: Result<String, String>)
    ensures
        match r {
            Ok(t) => metadata_outcome(bytes@) == Ok::<Seq<char>, Seq<char>>(t@),
            Err(e) => metadata_outcome(bytes@) == Err::<Seq<char>, Seq<char>>(e@),
        },
{
    if bytes.len() >= 2 && bytes[0] == 0xff && bytes[1] == 0xfe {
        return decode_utf16_metadata(&skip_two(bytes), true);
    }
    if bytes.len() >= 2 && bytes[0] == 0xfe && bytes[1] == 0xff {
        return decode_utf16_metadata(&skip_two(bytes), false);
    }
    match string_from_utf8(bytes) {
        Some(text) => Ok(text),
        None => Err(owned("metadata.txt must be valid UTF-8 or UTF-16 text.")),
    }
}

// ----------------------------------------------------------------------
// Fields
// ----------------------------------------------------------------------

/// The trimmed value of a `key=value` line whose trimmed key is `name`
/// (ASCII case-insensitively), if it is non-empty.
pub open spec fn line_field(line: Seq<char>, name: Seq<char>) -> Option<Seq<char>> {
    match split_once(line, '=') {
        Some((key, value)) => if lower(trim(key)) == lower(name) && trim(value).len() > 0 {
            Some(trim(value))
        } else {
            None
        },
        None => None,
    }
}

/// The first field named `name` among `ls[i..]`.
pub open spec fn field_from(ls: Seq<Seq<char>>, name: Seq<char>, i: int) -> Option<Seq<char>>
    decreases ls.len() - i,
{
    if i < 0 || i >= ls.len() {
        None
    } else if line_field(ls[i], name) is Some {
        line_field(ls[i], name)
    } else {
        field_from(ls, name, i + 1)
    }
}

/// `metadata_field`: the first non-empty value of field `name`.
pub open spec fn metadata_field_spec(text: Seq<char>, name: Seq<char>) -> Option<Seq<char>> {
    field_from(lines(text), name, 0)
}

fn line_field_exec(line: &[char], name: &[char]) -> (r: Option<Vec<char>>)
    ensures
        match r {
            Some(v) => line_field(line@, name@) == Some(v@),
            None => line_field(line@, name@) is None,
        },
{
    match split_once_exec(line, '=') {
        Some((key, value)) => {
            let k = trim_exec(&key);
            let v = trim_exec(&value);
            if chars_eq(&lower_exec(&k), &lower_exec(name)) && v.len() > 0 {
                Some(v)
            } else {
                None
            }
        },
        None => None,
    }
}

/// The value of a `name=value` field of `metadata.txt`, if present.
pub fn metadata_field(metadata: &str, name: &str) -> (r: Option<String>)
    ensures
        match r {
            Some(v) => metadata_field_spec(metadata@, name@) == Some(v@),
            None => metadata_field_spec(metadata@, name@) is None,
        },
{
    let ls = lines_exec(&chars_of(metadata));
    let n = chars_of(name);
    let ghost lsv = lines(metadata@);
    let mut i: usize = 0;
    while i < ls.len()
        invariant
            i <= ls.len(),
            ls@.len() == lsv.len(),
            lsv == lines(metadata@),
            n@ == name@,
            forall|j: int| 0 <= j < ls@.len() ==> #[trigger] ls@[j]@ == lsv[j],
            metadata_field_spec(metadata@, name@) == field_from(lsv, name@, i as int),
        decreases ls.len() - i,
    {
        if let Some(v) = line_field_exec(&ls[i], &n) {
            return Some(string_from_chars(&v));
        }
        i = i + 1;
    }
    None
}

/// The trimmed value of the first line whose trimmed key is `campaign`
/// (empty values included).
pub open spec fn campaign_line_value(line: Seq<char>) -> Option<Seq<char>> {
    match split_once(line, '=') {
        Some((key, value)) => if lower(trim(key)) == "campaign"@ { Some(trim(value)) } else { None },
        None => None,
    }
}

pub open spec fn campaign_value_from(ls: Seq<Seq<char>>, i: int) -> Option<Seq<char>>
    decreases ls.len() - i,
{
    if i < 0 || i >= ls.len() {
        None
    } else if campaign_line_value(ls[i]) is Some {
        campaign_line_value(ls[i])
    } else {
        campaign_value_from(ls, i + 1)
    }
}

/// The branch a lower-cased `campaign=` value names, by the first keyword
/// family it contains (WoL, then HotS, then LotV, then Nova Covert Ops).
pub open spec fn target_for_campaign_name(c: Seq<char>) -> Option<Seq<char>> {
    if contains(c, "wings"@) || contains(c, "liberty"@) || contains(c, "wol"@) {
        Some("Maps/Campaign"@)
    } else if contains(c, "heart"@) || contains(c, "swarm"@) || contains(c, "hots"@) {
        Some("Maps/Campaign/swarm"@)
    } else if contains(c, "legacy"@) || contains(c, "void"@) || contains(c, "lotv"@) {
        Some("Maps/Campaign/void"@)
    } else if contains(c, "nova"@) || contains(c, "covert"@) || contains(c, "ops"@) || contains(c, "nco"@) {
        Some("Maps/Campaign/nova"@)
    } else {
        None
    }
}

pub open spec fn target_from_metadata_outcome(metadata: Seq<char>) -> Result<Seq<char>, Seq<char>> {
    match campaign_value_from(lines(metadata), 0) {
        None => Err("metadata.txt has no campaign= value."@),
        Some(v) => match target_for_campaign_name(lower(v)) {
            Some(t) => Ok(t),
            None => Err("metadata.txt campaign= is not a campaign CCM Reborn understands."@),
        },
    }
}

fn campaign_line_value_exec(line: &[char]) -> (r: Option<Vec<char>>)
    ensures
        match r {
            Some(v) => campaign_line_value(line@) == Some(v@),
            None => campaign_line_value(line@) is None,
        },
{
    match split_once_exec(line, '=') {
        Some((key, value)) => {
            if chars_eq(&lower_exec(&trim_exec(&key)), &chars_of("campaign")) {
                Some(trim_exec(&value))
            } else {
                None
            }
        },
        None => None,
    }
}

fn target_for_campaign_name_exec(c: &[char]) -> (r: Option<String>)
    ensures
        match r {
            Some(t) => target_for_campaign_name(c@) == Some(t@),
            None => target_for_campaign_name(c@) is None,
        },
{
    if contains_exec(c, &chars_of("wings")) || contains_exec(c, &chars_of("liberty")) || contains_exec(
        c,
        &chars_of("wol"),
    ) {
        return Some(owned("Maps/Campaign"));
    }
    if contains_exec(c, &chars_of("heart")) || contains_exec(c, &chars_of("swarm")) || contains_exec(
        c,
        &chars_of("hots"),
    ) {
        return Some(owned("Maps/Campaign/swarm"));
    }
    if contains_exec(c, &chars_of("legacy")) || contains_exec(c, &chars_of("void")) || contains_exec(
        c,
        &chars_of("lotv"),
    ) {
        return Some(owned("Maps/Campaign/void"));
    }
    if contains_exec(c, &chars_of("nova")) || contains_exec(c, &chars_of("covert")) || contains_exec(
        c,
        &chars_of("ops"),
    ) || contains_exec(c, &chars_of("nco")) {
        return Some(owned("Maps/Campaign/nova"));
    }
    None
}

/// The campaign branch a package's `campaign=` field names.
pub fn campaign_target_from_metadata(metadata: &str) -> (r: Result<String, String>)
    ensures
        match r {
            Ok(t) => target_from_metadata_outcome(metadata@) == Ok::<Seq<char>, Seq<char>>(t@),
            Err(e) => target_from_metadata_outcome(metadata@) == Err::<Seq<char>, Seq<char>>(e@),
        },
{
    let ls = lines_exec(&chars_of(metadata));
    let ghost lsv = lines(metadata@);
    let mut i: usize = 0;
    while i < ls.len()
        invariant
            i <= ls.len(),
            ls@.len() == lsv.len(),
            lsv == lines(metadata@),
            forall|j: int| 0 <= j < ls@.len() ==> #[trigger] ls@[j]@ == lsv[j],
            campaign_value_from(lsv, 0) == campaign_value_from(lsv, i as int),
        decreases ls.len() - i,
    {
        if let Some(v) = campaign_line_value_exec(&ls[i]) {
            let c = lower_exec(&v);
            return match target_for_campaign_name_exec(&c) {
                Some(t) => Ok(t),
                None => Err(owned("metadata.txt campaign= is not a campaign CCM Reborn understands.")),
            };
        }
        i = i + 1;
    }
    Err(owned("metadata.txt has no campaign= value."))
}


/// The documented `campaign=` keywords pick their branches: a lower-cased
/// value naming Wings, Liberty or WoL installs to `Maps/Campaign`; one naming
/// Heart, Swarm or HotS (and none of those) to `Maps/Campaign/swarm`; one
/// naming Legacy, Void or LotV (and none of the above) to
/// `Maps/Campaign/void`; one naming Nova, Covert or NCO (and none of the
/// above) to `Maps/Campaign/nova`. A value naming no keyword is refused.
pub proof fn lemma_campaign_keywords_pick_their_branch(c: Seq<char>)
    ensures
        contains(c, "wings"@) || contains(c, "liberty"@) || contains(c, "wol"@) ==> target_for_campaign_name(c)
            == Some("Maps/Campaign"@),
        !(contains(c, "wings"@) || contains(c, "liberty"@) || contains(c, "wol"@)) && (contains(c, "heart"@) || contains(
            c,
            "swarm"@,
        ) || contains(c, "hots"@)) ==> target_for_campaign_name(c) == Some("Maps/Campaign/swarm"@),
        !(contains(c, "wings"@) || contains(c, "liberty"@) || contains(c, "wol"@)) && !(contains(c, "heart"@) || contains(
            c,
            "swarm"@,
        ) || contains(c, "hots"@)) && (contains(c, "legacy"@) || contains(c, "void"@) || contains(c, "lotv"@))
            ==> target_for_campaign_name(c) == Some("Maps/Campaign/void"@),
        !(contains(c, "wings"@) || contains(c, "liberty"@) || contains(c, "wol"@)) && !(contains(c, "heart"@) || contains(
            c,
            "swarm"@,
        ) || contains(c, "hots"@)) && !(contains(c, "legacy"@) || contains(c, "void"@) || contains(c, "lotv"@)) && (
        contains(c, "nova"@) || contains(c, "covert"@) || contains(c, "nco"@)) ==> target_for_campaign_name(c) == Some(
            "Maps/Campaign/nova"@,
        ),
        target_for_campaign_name(c) is Some ==> contains(c, "wings"@) || contains(c, "liberty"@) || contains(c, "wol"@)
            || contains(c, "heart"@) || contains(c, "swarm"@) || contains(c, "hots"@) || contains(c, "legacy"@) || contains(
            c,
            "void"@,
        ) || contains(c, "lotv"@) || contains(c, "nova"@) || contains(c, "covert"@) || contains(c, "ops"@) || contains(
            c,
            "nco"@,
        ),
{
}

} // verus!
