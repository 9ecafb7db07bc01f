//! Campaign catalogs: where one comes from, which entries it may hold, and
//! the package each entry resolves to.

use vstd::prelude::*;
use crate::paths::{components, is_safe_relative};
use crate::profile_core::{is_sha256_hex, is_sha256_hex_exec};
use crate::text::{
    chars_eq, chars_of, concat_chars, lower, lower_exec, owned, starts_with, starts_with_exec, string_from_chars,
    trim, trim_exec, views,
};

verus! {

// ----------------------------------------------------------------------
// Hashes and sizes
// ----------------------------------------------------------------------

/// The canonical form of a declared SHA-256: trimmed and lower-cased.
pub open spec fn sha256_form(value: Seq<char>) -> Seq<char> {
    lower(trim(value))
}

pub open spec fn sha256_error() -> Seq<char> {
    "Catalog entry has no valid SHA-256 for this package."@
}

pub open spec fn sha256_outcome(value: Seq<char>) -> Result<Seq<char>, Seq<char>> {
    if is_sha256_hex(sha256_form(value)) {
        Ok(sha256_form(value))
    } else {
        Err(sha256_error())
    }
}

/// `normalize_sha256`: sixty-four hex digits, trimmed and lower-cased.
pub fn normalize_sha256(value: &str) -> (r: Result<String, String>)
    ensures
        match r {
            Ok(h) => sha256_outcome(value@) == Ok::<Seq<char>, Seq<char>>(h@),
            Err(e) => sha256_outcome(value@) == Err::<Seq<char>, Seq<char>>(e@),
        },
{
    let hash = string_from_chars(&lower_exec(&trim_exec(&chars_of(value))));
    if is_sha256_hex_exec(hash.as_str()) {
        Ok(hash)
    } else {
        Err(owned("Catalog entry has no valid SHA-256 for this package."))
    }
}

proof fn lemma_lower_idempotent(s: Seq<char>)
    ensures
        lower(lower(s)) == lower(s),
{
    assert(lower(lower(s)) =~= lower(s));
}

proof fn lemma_trim_of_hex(s: Seq<char>)
    requires
        is_sha256_hex(s),
    ensures
        trim(s) == s,
{
    assert(!crate::text::is_whitespace(s[0]));
    assert(!crate::text::is_whitespace(s[s.len() - 1]));
    assert(crate::text::trim_start_index(s, 0) == 0);
    assert(crate::text::trim_end_index(s, 0, s.len() as int) == s.len());
    assert(s.subrange(0, s.len() as int) =~= s);
}

/// Normalizing an accepted hash gives it back: the stored form is a fixed
/// point, so a catalog hash and a hash recomputed from the same text agree.
pub proof fn lemma_normalize_sha256_idempotent(value: Seq<char>)
    requires
        sha256_outcome(value) is Ok,
    ensures
        sha256_outcome(sha256_form(value)) == sha256_outcome(value),
{
    let h = sha256_form(value);
    lemma_trim_of_hex(h);
    lemma_lower_idempotent(trim(value));
}

pub open spec fn size_mismatch_error() -> Seq<char> {
    "The package size does not match the catalog entry. No files were changed."@
}

/// `validate_declared_package_size`: a declared size must be the actual one.
pub fn validate_declared_package_size(expected: Option<u64>, actual: u64) -> (r: Result<(), String>)
    ensures
        r is Ok <==> (expected is None || expected == Some(actual)),
        r matches Err(e) ==> e@ == size_mismatch_error(),
{
    if let Some(expected) = expected {
        if expected != actual {
            return Err(owned("The package size does not match the catalog entry. No files were changed."));
        }
    }
    Ok(())
}

// ----------------------------------------------------------------------
// Catalog documents
// ----------------------------------------------------------------------

#[derive(Debug, Clone, PartialEq, Eq)]
pub struct CampaignRequirements {
    pub campaign: String,
}

#[derive(Debug, Clone, PartialEq, Eq)]
pub struct CatalogPackage {
    pub url: Option<String>,
    pub path: Option<String>,
    pub sha256: String,
    pub size: u64,
}

#[derive(Debug, Clone, PartialEq, Eq)]
pub struct CatalogCampaign {
    pub id: String,
    pub title: String,
    pub author: String,
    pub version: String,
    pub description: String,
    pub tags: Vec<String>,
    pub requirements: CampaignRequirements,
    pub package: CatalogPackage,
}

/// A `catalog.json` document as parsed.
#[derive(Debug, Clone, PartialEq, Eq)]
pub struct CatalogDocument {
    pub format: u32,
    pub name: String,
    pub updated_at: String,
    pub campaigns: Vec<CatalogCampaign>,
}

/// The package a catalog entry resolves to.
#[derive(Debug, Clone, PartialEq, Eq)]
pub struct ResolvedCatalogPackage {
    pub source: String,
    pub sha256: String,
    pub size: u64,
}

#[derive(Debug, Clone, PartialEq, Eq)]
pub struct ResolvedCatalogCampaign {
    pub id: String,
    pub title: String,
    pub author: String,
    pub version: String,
    pub description: String,
    pub tags: Vec<String>,
    pub requirements: CampaignRequirements,
    pub package: ResolvedCatalogPackage,
}

/// A validated catalog with each entry's package resolved.
#[derive(Debug, Clone, PartialEq, Eq)]
pub struct LoadedCatalog {
    pub format: u32,
    pub name: String,
    pub updated_at: String,
    pub source_kind: String,
    pub campaigns: Vec<ResolvedCatalogCampaign>,
}

pub open spec fn blank(s: Seq<char>) -> bool {
    trim(s).len() == 0
}

/// `validate_catalog_campaign`: a valid ID, non-blank descriptive fields, a
/// package size and a valid hash.
pub open spec fn campaign_check(c: CatalogCampaign) -> Result<(), Seq<char>> {
    if !crate::state::campaign_id_ok(c.id@) {
        Err(crate::state::campaign_id_error())
    } else {
        if blank(c.title@) || blank(c.author@) || blank(c.version@) || blank(c.description@) || blank(
            c.requirements.campaign@,
        ) {
            Err("Campaign "@ + c.id@ + " is missing required catalog fields."@)
        } else if c.package.size == 0 {
            Err("Campaign "@ + c.id@ + " has no package size."@)
        } else if sha256_outcome(c.package.sha256@) is Err {
            Err(sha256_error())
        } else {
            Ok(())
        }
    }
}

fn is_blank(s: &str) -> (r: bool)
    ensures
        r == blank(s@),
{
    trim_exec(&chars_of(s)).len() == 0
}

fn message3(a: &str, b: &str, c: &str) -> (r: String)
    ensures
        r@ == a@ + b@ + c@,
{
    string_from_chars(&concat_chars(&concat_chars(&chars_of(a), &chars_of(b)), &chars_of(c)))
}

/// Checks one catalog entry: its ID, texts, package and requirements.
pub fn validate_catalog_campaign(campaign: &CatalogCampaign) -> (r: Result<(), String>)
    ensures
        match r {
            Ok(_) => campaign_check(*campaign) is Ok,
            Err(e) => campaign_check(*campaign) == Err::<(), Seq<char>>(e@),
        },
{
    crate::state::validate_campaign_id(campaign.id.as_str())?;
    if is_blank(campaign.title.as_str()) || is_blank(campaign.author.as_str()) || is_blank(campaign.version.as_str())
        || is_blank(campaign.description.as_str()) || is_blank(campaign.requirements.campaign.as_str()) {
        return Err(message3("Campaign ", campaign.id.as_str(), " is missing required catalog fields."));
    }
    if campaign.package.size == 0 {
        return Err(message3("Campaign ", campaign.id.as_str(), " has no package size."));
    }
    normalize_sha256(campaign.package.sha256.as_str())?;
    Ok(())
}

// ----------------------------------------------------------------------
// Where a catalog comes from
// ----------------------------------------------------------------------

/// A catalog source: an HTTPS URL, or the path of a local `catalog.json`.
#[derive(Debug, Clone, PartialEq, Eq)]
pub enum CatalogSource {
    Remote(String),
    Local(String),
}

/// `Path::file_name`: the last component, unless it is `..`.
pub open spec fn file_name(path: Seq<char>) -> Option<Seq<char>> {
    let cs = components(path);
    if cs.len() > 0 && cs.last() != crate::paths::dot_dot() {
        Some(cs.last())
    } else {
        None
    }
}

pub open spec fn source_outcome(source: Seq<char>) -> Result<(bool, Seq<char>), Seq<char>> {
    let s = trim(source);
    if s.len() == 0 {
        Err("Enter a catalog.json path or an HTTPS catalog URL."@)
    } else if starts_with(s, "https://"@) {
        Ok((true, s))
    } else if file_name(s) != Some("catalog.json"@) {
        Err("Local development catalogs must be named catalog.json."@)
    } else {
        Ok((false, s))
    }
}

impl CatalogSource {
    pub open spec fn view(&self) -> (bool, Seq<char>) {
        match self {
            CatalogSource::Remote(u) => (true, u@),
            CatalogSource::Local(p) => (false, p@),
        }
    }
}

fn file_name_exec(path: &[char]) -> (r: Option<Vec<char>>)
    ensures
        match r {
            Some(n) => file_name(path@) == Some(n@),
            None => file_name(path@) is None,
        },
{
    let cs = crate::paths::components_exec(path);
    if cs.len() > 0 && !chars_eq(&cs[cs.len() - 1], &crate::paths::dot_dot_exec()) {
        Some(concat_chars(&cs[cs.len() - 1], &[]))
    } else {
        None
    }
}

/// The checks `load_catalog` makes of its source before reading it.
pub fn classify_catalog_source(source: &str) -> (r: Result<CatalogSource, String>)
    ensures
        match r {
            Ok(s) => source_outcome(source@) == Ok::<(bool, Seq<char>), Seq<char>>(s.view()),
            Err(e) => source_outcome(source@) == Err::<(bool, Seq<char>), Seq<char>>(e@),
        },
{
    let s = trim_exec(&chars_of(source));
    if s.len() == 0 {
        return Err(owned("Enter a catalog.json path or an HTTPS catalog URL."));
    }
    if starts_with_exec(&s, &chars_of("https://")) {
        return Ok(CatalogSource::Remote(string_from_chars(&s)));
    }
    let named = match file_name_exec(&s) {
        Some(n) => chars_eq(&n, &chars_of("catalog.json")),
        None => false,
    };
    if !named {
        return Err(owned("Local development catalogs must be named catalog.json."));
    }
    Ok(CatalogSource::Local(string_from_chars(&s)))
}

/// The first checks of `resolve_local_package`: a declared, contained,
/// forward-slash relative `package.path`.
pub open spec fn local_package_path_outcome(declared: Option<Seq<char>>) -> Result<Seq<char>, Seq<char>> {
    match declared {
        None => Err("Local campaigns need package.path."@),
        Some(p) => if is_safe_relative(p) {
            Ok(p)
        } else {
            Err("Local package.path must be a contained relative path using forward slashes."@)
        },
    }
}

/// `package.path` as `resolve_local_package` accepts it before looking for it.
pub fn local_package_path(declared: Option<&str>) -> (r: Result<String, String>)
    ensures
        match r {
            Ok(p) => local_package_path_outcome(match declared {
                Some(d) => Some(d@),
                None => None,
            }) == Ok::<Seq<char>, Seq<char>>(p@),
            Err(e) => local_package_path_outcome(match declared {
                Some(d) => Some(d@),
                None => None,
            }) == Err::<Seq<char>, Seq<char>>(e@),
        },
{
    match declared {
        None => Err(owned("Local campaigns need package.path.")),
        Some(p) => {
            if crate::paths::is_safe_relative_exec(&chars_of(p)) {
                Ok(owned(p))
            } else {
                Err(owned("Local package.path must be a contained relative path using forward slashes."))
            }
        },
    }
}

// ----------------------------------------------------------------------
// Resolving a catalog
// ----------------------------------------------------------------------

/// The package source of an entry of a remote catalog: its HTTPS URL.
pub open spec fn remote_source(c: CatalogCampaign) -> Result<Seq<char>, Seq<char>> {
    match c.package.url {
        Some(u) => if starts_with(u@, "https://"@) {
            Ok(u@)
        } else {
            Err("Remote campaign "@ + c.id@ + " needs an HTTPS package.url."@)
        },
        None => Err("Remote campaign "@ + c.id@ + " needs an HTTPS package.url."@),
    }
}

pub open spec fn result_view(r: Result<String, String>) -> Result<Seq<char>, Seq<char>> {
    match r {
        Ok(s) => Ok(s@),
        Err(e) => Err(e@),
    }
}

/// The package source of entry `i`: from the local resolutions where the
/// catalog is local, else from the entry's URL.
pub open spec fn entry_source(cs: Seq<CatalogCampaign>, local: Option<Seq<Result<String, String>>>, i: int) -> Result<
    Seq<char>,
    Seq<char>,
> {
    match local {
        Some(l) => result_view(l[i]),
        None => remote_source(cs[i]),
    }
}

pub open spec fn ids_before(cs: Seq<CatalogCampaign>, i: int) -> Seq<Seq<char>> {
    cs.take(i).map_values(|c: CatalogCampaign| c.id@)
}

/// The first error of the catalog's entries from `i` on, in the order
/// `load_catalog` meets them: validation, a repeated ID, the package source,
/// the hash.
pub open spec fn entries_error(cs: Seq<CatalogCampaign>, local: Option<Seq<Result<String, String>>>, i: int) -> Option<
    Seq<char>,
>
    decreases cs.len() - i,
{
    if i < 0 || i >= cs.len() {
        None
    } else if campaign_check(cs[i]) is Err {
        Some(campaign_check(cs[i])->Err_0)
    } else if ids_before(cs, i).contains(cs[i].id@) {
        Some("Catalog contains campaign ID "@ + cs[i].id@ + " more than once."@)
    } else if entry_source(cs, local, i) is Err {
        Some(entry_source(cs, local, i)->Err_0)
    } else {
        entries_error(cs, local, i + 1)
    }
}

pub open spec fn document_error(d: CatalogDocument, local: Option<Seq<Result<String, String>>>) -> Option<Seq<char>> {
    if d.format != 1 {
        Some("This catalog uses an unsupported format."@)
    } else if blank(d.name@) {
        Some("Catalog must have a name."@)
    } else {
        entries_error(d.campaigns@, local, 0)
    }
}

/// Entry `r` is entry `c` with its package resolved to `source`.
pub open spec fn resolved_from(r: ResolvedCatalogCampaign, c: CatalogCampaign, source: Seq<char>) -> bool {
    &&& r.id@ == c.id@
    &&& r.title@ == c.title@
    &&& r.author@ == c.author@
    &&& r.version@ == c.version@
    &&& r.description@ == c.description@
    &&& views(r.tags@) == views(c.tags@)
    &&& r.requirements.campaign@ == c.requirements.campaign@
    &&& r.package.source@ == source
    &&& r.package.sha256@ == sha256_form(c.package.sha256@)
    &&& r.package.size == c.package.size
}

fn clone_string(s: &String) -> (r: String)
    ensures
        r@ == s@,
{
    owned(s.as_str())
}

fn clone_strings(v: &Vec<String>) -> (r: Vec<String>)
    ensures
        views(r@) == views(v@),
{
    let mut r: Vec<String> = Vec::new();
    let mut i: usize = 0;
    while i < v.len()
        invariant
            i <= v.len(),
            views(r@) == views(v@).take(i as int),
        decreases v.len() - i,
    {
        let ghost before = r@;
        r.push(clone_string(&v[i]));
        proof {
            assert(views(r@) =~= views(before).push(v@[i as int]@));
            assert(views(v@).take(i as int + 1) =~= views(v@).take(i as int).push(v@[i as int]@));
        }
        i = i + 1;
    }
    proof {
        assert(views(v@).take(v@.len() as int) =~= views(v@));
    }
    r
}

fn id_seen(cs: &Vec<CatalogCampaign>, i: usize) -> (r: bool)
    requires
        i < cs@.len(),
    ensures
        r == ids_before(cs@, i as int).contains(cs@[i as int].id@),
{
    let ghost ids = ids_before(cs@, i as int);
    let mut j: usize = 0;
    while j < i
        invariant
            i < cs@.len(),
            j <= i,
            ids == ids_before(cs@, i as int),
            ids.len() == i,
            forall|k: int| 0 <= k < j ==> #[trigger] ids[k] != cs@[i as int].id@,
        decreases i - j,
    {
        if chars_eq(&chars_of(cs[j].id.as_str()), &chars_of(cs[i].id.as_str())) {
            proof {
                assert(ids[j as int] == cs@[j as int].id@);
            }
            return true;
        }
        proof {
            assert(ids[j as int] == cs@[j as int].id@);
        }
        j = j + 1;
    }
    false
}

fn remote_source_exec(c: &CatalogCampaign) -> (r: Result<String, String>)
    ensures
        result_view(r) == remote_source(*c),
{
    match &c.package.url {
        Some(u) => {
            if starts_with_exec(&chars_of(u.as_str()), &chars_of("https://")) {
                return Ok(clone_string(u));
            }
        },
        None => {},
    }
    Err(message3("Remote campaign ", c.id.as_str(), " needs an HTTPS package.url."))
}

/// `load_catalog` after the document is parsed: the checks of the document
/// and of each entry, and each entry's package. For a local catalog,
/// `local_sources[i]` is what `resolve_local_package` gave for entry `i`.
pub fn resolve_catalog(document: CatalogDocument, local_sources: Option<Vec<Result<String, String>>>, source_kind: &str) -> (r: Result<
    LoadedCatalog,
    String,
>)
    requires
        local_sources matches Some(l) ==> l@.len() == document.campaigns@.len(),
    ensures
        match r {
            Ok(cat) => {
                &&& document_error(document, match local_sources {
                    Some(l) => Some(l@),
                    None => None,
                }) is None
                &&& cat.format == document.format
                &&& cat.name@ == document.name@
                &&& cat.updated_at@ == document.updated_at@
                &&& cat.source_kind@ == source_kind@
                &&& cat.campaigns@.len() == document.campaigns@.len()
                &&& forall|i: int|
                    0 <= i < cat.campaigns@.len() ==> resolved_from(
                        #[trigger] cat.campaigns@[i],
                        document.campaigns@[i],
                        entry_source(document.campaigns@, match local_sources {
                            Some(l) => Some(l@),
                            None => None,
                        }, i)->Ok_0,
                    )
            },
            Err(e) => document_error(document, match local_sources {
                Some(l) => Some(l@),
                None => None,
            }) == Some(e@),
        },
{
    let ghost local = match &local_sources {
        Some(l) => Some(l@),
        None => None::<Seq<Result<String, String>>>,
    };
    if document.format != 1 {
        return Err(owned("This catalog uses an unsupported format."));
    }
    if is_blank(document.name.as_str()) {
        return Err(owned("Catalog must have a name."));
    }
    let cs = &document.campaigns;
    let mut out: Vec<ResolvedCatalogCampaign> = Vec::new();
    let mut i: usize = 0;
    while i < cs.len()
        invariant
            i <= cs.len(),
            cs == &document.campaigns,
            local == match local_sources {
                Some(l) => Some(l@),
                None => None::<Seq<Result<String, String>>>,
            },
            local_sources matches Some(l) ==> l@.len() == cs@.len(),
            document.format == 1,
            !blank(document.name@),
            document_error(document, local) == entries_error(cs@, local, i as int),
            out@.len() == i,
            forall|j: int| 0 <= j < i ==> entry_source(cs@, local, j) is Ok,
            forall|j: int|
                0 <= j < i ==> resolved_from(#[trigger] out@[j], cs@[j], entry_source(cs@, local, j)->Ok_0),
        decreases cs.len() - i,
    {
        let c = &cs[i];
        validate_catalog_campaign(c)?;
        if id_seen(cs, i) {
            return Err(message3("Catalog contains campaign ID ", c.id.as_str(), " more than once."));
        }
        let source = match &local_sources {
            Some(l) => match &l[i] {
                Ok(s) => clone_string(s),
                Err(e) => {
                    return Err(clone_string(e));
                },
            },
            None => remote_source_exec(c)?,
        };
        let sha256 = normalize_sha256(c.package.sha256.as_str())?;
        let resolved = ResolvedCatalogCampaign {
            id: clone_string(&c.id),
            title: clone_string(&c.title),
            author: clone_string(&c.author),
            version: clone_string(&c.version),
            description: clone_string(&c.description),
            tags: clone_strings(&c.tags),
            requirements: CampaignRequirements { campaign: clone_string(&c.requirements.campaign) },
            package: ResolvedCatalogPackage { source, sha256, size: c.package.size },
        };
        out.push(resolved);
        i = i + 1;
    }
    Ok(LoadedCatalog {
        format: document.format,
        name: clone_string(&document.name),
        updated_at: clone_string(&document.updated_at),
        source_kind: owned(source_kind),
        campaigns: out,
    })
}

} // verus!
