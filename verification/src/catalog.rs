//! Decoding of the remote add-on catalog document: a JSON array of
//! records with fixed camelCase fields. The JSON text is parsed by an
//! outside parser into its value tree; everything read out of that tree
//! is verified against a model of the tree's contents.

use vstd::prelude::*;

use crate::flavor::Flavor;
use crate::flavor::spec_from_identifier;
use crate::paths::names_model;

verus! {

/// Model of a parsed JSON value: what the catalog decoder reads of it.
/// Numbers are modelled by whether they are unsigned integers in 64-bit
/// range, which is all the document schema uses.
pub enum JsonData {
    Null,
    Bool(bool),
    UInt(u64),
    NumOther,
    Str(Seq<char>),
    Arr(Seq<JsonData>),
    Obj(Map<Seq<char>, JsonData>),
}

/// Declares serde_json::Value, the outside parser's value tree, so that
/// references to it can flow through verified code; it stays opaque, and
/// only `value_rep` speaks of what is inside.
#[verifier::external_type_specification]
#[verifier::external_body]
pub struct ExValue(serde_json::Value);

/// The contents of a parsed JSON value.
pub uninterp spec fn value_rep(v: serde_json::Value) -> JsonData;

/// What parsing a document text yields: the contents of its JSON value,
/// or nothing when the text is not well-formed JSON. The result depends
/// on the text alone.
pub uninterp spec fn json_parse(s: Seq<char>) -> Option<JsonData>;

/// Relies on serde_json::from_str::<Value>: parses the document text
/// into its JSON value; failures are reported as absence.
#[verifier::external_body]
fn parse_value(s: &str) -> (r: Option<serde_json::Value>)
    ensures
        match r {
            Some(v) => json_parse(s@) == Some(value_rep(v)),
            None => json_parse(s@) is None,
        },
{
    serde_json::from_str::<serde_json::Value>(s).ok()
}

/// Relies on serde_json::Value::as_array: yields the elements when the
/// value is an array, and nothing otherwise.
#[verifier::external_body]
fn value_as_array(v: &serde_json::Value) -> (r: Option<&Vec<serde_json::Value>>)
    ensures
        match value_rep(*v) {
            JsonData::Arr(s) => r matches Some(a) && a@.len() == s.len() && forall|i: int|
                0 <= i < s.len() ==> value_rep(#[trigger] a@[i]) == s[i],
            _ => r is None,
        },
{
    v.as_array()
}

/// Relies on serde_json::Value::get: yields the named field of an
/// object when present, and nothing otherwise.
#[verifier::external_body]
fn value_get<'a>(v: &'a serde_json::Value, key: &str) -> (r: Option<&'a serde_json::Value>)
    ensures
        match value_rep(*v) {
            JsonData::Obj(m) => {
                if m.dom().contains(key@) {
                    r matches Some(w) && value_rep(*w) == m[key@]
                } else {
                    r is None
                }
            },
            _ => r is None,
        },
{
    v.get(key)
}

/// Relies on serde_json::Value::as_u64: yields the number when the value
/// is an unsigned integer in 64-bit range, and nothing otherwise.
#[verifier::external_body]
fn value_as_u64(v: &serde_json::Value) -> (r: Option<u64>)
    ensures
        r == (match value_rep(*v) {
            JsonData::UInt(n) => Some(n),
            _ => None::<u64>,
        }),
{
    v.as_u64()
}

/// Relies on serde_json::Value::as_str: yields the text when the value
/// is a string, and nothing otherwise.
#[verifier::external_body]
fn value_as_str<'a>(v: &'a serde_json::Value) -> (r: Option<&'a str>)
    ensures
        match value_rep(*v) {
            JsonData::Str(s) => r matches Some(t) && t@ == s,
            _ => r is None,
        },
{
    v.as_str()
}

/// The distribution source of a catalog record; only one is recognized.
#[derive(Debug, Clone, Copy, PartialEq, Eq, Structural)]
pub enum Source {
    Curse,
}

/// One record of the catalog document.
#[derive(Debug, Clone, PartialEq)]
pub struct CatalogAddon {
    pub id: u32,
    pub name: String,
    pub categories: Vec<String>,
    pub summary: String,
    pub number_of_downloads: u64,
    pub source: Source,
    pub flavors: Vec<Flavor>,
}

/// Mathematical model of one catalog record.
pub struct AddonModel {
    pub id: u32,
    pub name: Seq<char>,
    pub categories: Seq<Seq<char>>,
    pub summary: Seq<char>,
    pub number_of_downloads: u64,
    pub source: Source,
    pub flavors: Seq<Flavor>,
}

impl View for CatalogAddon {
    type V = AddonModel;

    open spec fn view(&self) -> AddonModel {
        AddonModel {
            id: self.id,
            name: self.name@,
            categories: names_model(self.categories@),
            summary: self.summary@,
            number_of_downloads: self.number_of_downloads,
            source: self.source,
            flavors: self.flavors@,
        }
    }
}

/// The model of a record sequence.
pub open spec fn addons_model(addons: Seq<CatalogAddon>) -> Seq<AddonModel> {
    addons.map(|i: int, a: CatalogAddon| a@)
}

/// The fetched catalog: its records, in document order.
#[derive(Debug, Clone, PartialEq)]
pub struct Catalog {
    pub addons: Vec<CatalogAddon>,
}

impl View for Catalog {
    type V = Seq<AddonModel>;

    open spec fn view(&self) -> Seq<AddonModel> {
        addons_model(self.addons@)
    }
}

/// The strings of a JSON array's elements, when all are strings.
pub open spec fn strings_of(a: Seq<JsonData>) -> Option<Seq<Seq<char>>>
    decreases a.len(),
{
    if a.len() == 0 {
        Some(Seq::empty())
    } else {
        match (strings_of(a.drop_last()), a.last()) {
            (Some(t), JsonData::Str(s)) => Some(t.push(s)),
            _ => None,
        }
    }
}

/// The flavors of a JSON array's elements, when all are strings holding
/// known flavor identifiers.
pub open spec fn flavors_of(a: Seq<JsonData>) -> Option<Seq<Flavor>>
    decreases a.len(),
{
    if a.len() == 0 {
        Some(Seq::empty())
    } else {
        match (flavors_of(a.drop_last()), a.last()) {
            (Some(t), JsonData::Str(s)) => match spec_from_identifier(s) {
                Some(f) => Some(t.push(f)),
                None => None,
            },
            _ => None,
        }
    }
}

/// The record a JSON value describes: an object with all seven expected
/// fields, each of the expected shape; anything else is no record.
pub open spec fn addon_of(j: JsonData) -> Option<AddonModel> {
    match j {
        JsonData::Obj(m) => {
            if m.dom().contains("id"@) && m.dom().contains("name"@) && m.dom().contains(
                "categories"@,
            ) && m.dom().contains("summary"@) && m.dom().contains("numberOfDownloads"@)
                && m.dom().contains("source"@) && m.dom().contains("flavors"@) {
                match (
                    m["id"@],
                    m["name"@],
                    m["categories"@],
                    m["summary"@],
                    m["numberOfDownloads"@],
                    m["source"@],
                    m["flavors"@],
                ) {
                    (
                        JsonData::UInt(id),
                        JsonData::Str(name),
                        JsonData::Arr(cats),
                        JsonData::Str(summary),
                        JsonData::UInt(downloads),
                        JsonData::Str(src),
                        JsonData::Arr(fls),
                    ) => {
                        if id <= u32::MAX && src == "curse"@ {
                            match (strings_of(cats), flavors_of(fls)) {
                                (Some(cs), Some(fs)) => Some(
                                    AddonModel {
                                        id: id as u32,
                                        name,
                                        categories: cs,
                                        summary,
                                        number_of_downloads: downloads,
                                        source: Source::Curse,
                                        flavors: fs,
                                    },
                                ),
                                _ => None,
                            }
                        } else {
                            None
                        }
                    },
                    _ => None,
                }
            } else {
                None
            }
        },
        _ => None,
    }
}

/// The records of a JSON array's elements, when every element describes
/// one.
pub open spec fn addons_of(a: Seq<JsonData>) -> Option<Seq<AddonModel>>
    decreases a.len(),
{
    if a.len() == 0 {
        Some(Seq::empty())
    } else {
        match (addons_of(a.drop_last()), addon_of(a.last())) {
            (Some(t), Some(m)) => Some(t.push(m)),
            _ => None,
        }
    }
}

/// The catalog a JSON value describes: an array all of whose elements
/// describe records.
pub open spec fn catalog_of(j: JsonData) -> Option<Seq<AddonModel>> {
    match j {
        JsonData::Arr(s) => addons_of(s),
        _ => None,
    }
}

/// The catalog a document text describes, when it is well-formed JSON
/// describing one.
pub open spec fn decode_catalog(body: Seq<char>) -> Option<Seq<AddonModel>> {
    match json_parse(body) {
        Some(j) => catalog_of(j),
        None => None,
    }
}

/// Once a prefix of the elements fails to decode as strings, the whole
/// sequence fails.
proof fn lemma_strings_of_prefix_none(a: Seq<JsonData>, i: int)
    requires
        0 <= i <= a.len(),
        strings_of(a.subrange(0, i)) is None,
    ensures
        strings_of(a) is None,
    decreases a.len() - i,
{
    if i == a.len() {
        assert(a.subrange(0, i) =~= a);
    } else {
        assert(a.subrange(0, i + 1).drop_last() =~= a.subrange(0, i));
        lemma_strings_of_prefix_none(a, i + 1);
    }
}

/// Once a prefix of the elements fails to decode as flavors, the whole
/// sequence fails.
proof fn lemma_flavors_of_prefix_none(a: Seq<JsonData>, i: int)
    requires
        0 <= i <= a.len(),
        flavors_of(a.subrange(0, i)) is None,
    ensures
        flavors_of(a) is None,
    decreases a.len() - i,
{
    if i == a.len() {
        assert(a.subrange(0, i) =~= a);
    } else {
        assert(a.subrange(0, i + 1).drop_last() =~= a.subrange(0, i));
        lemma_flavors_of_prefix_none(a, i + 1);
    }
}

/// Once a prefix of the elements fails to decode as records, the whole
/// sequence fails.
proof fn lemma_addons_of_prefix_none(a: Seq<JsonData>, i: int)
    requires
        0 <= i <= a.len(),
        addons_of(a.subrange(0, i)) is None,
    ensures
        addons_of(a) is None,
    decreases a.len() - i,
{
    if i == a.len() {
        assert(a.subrange(0, i) =~= a);
    } else {
        assert(a.subrange(0, i + 1).drop_last() =~= a.subrange(0, i));
        lemma_addons_of_prefix_none(a, i + 1);
    }
}

/// Reads the elements of a parsed array as strings.
fn strings_from_values(vals: &Vec<serde_json::Value>) -> (r: Option<Vec<String>>)
    ensures
        ({
            let jm = Seq::new(vals@.len(), |i: int| value_rep(vals@[i]));
            match strings_of(jm) {
                Some(t) => r matches Some(v) && names_model(v@) == t,
                None => r is None,
            }
        }),
{
    let ghost jm = Seq::new(vals@.len(), |i: int| value_rep(vals@[i]));
    let n = vals.len();
    let mut out: Vec<String> = Vec::new();
    let mut i: usize = 0;
    proof {
        assert(names_model(out@) =~= Seq::<Seq<char>>::empty());
        assert(jm.subrange(0, 0) =~= Seq::<JsonData>::empty());
    }
    while i < n
        invariant
            i <= n,
            n == vals@.len(),
            jm == Seq::new(vals@.len(), |k: int| value_rep(vals@[k])),
            strings_of(jm.subrange(0, i as int)) == Some(names_model(out@)),
        decreases n - i,
    {
        proof {
            assert(jm.subrange(0, (i + 1) as int).drop_last() =~= jm.subrange(0, i as int));
            assert(jm.subrange(0, (i + 1) as int).last() == jm[i as int]);
        }
        match value_as_str(&vals[i]) {
            Some(s) => {
                out.push(s.to_owned());
                proof {
                    assert(names_model(out@) =~= strings_of(
                        jm.subrange(0, (i + 1) as int),
                    ).unwrap());
                }
            },
            None => {
                proof {
                    lemma_strings_of_prefix_none(jm, i + 1);
                }
                return None;
            },
        }
        i += 1;
    }
    proof {
        assert(jm.subrange(0, n as int) =~= jm);
    }
    Some(out)
}

/// Reads the elements of a parsed array as flavor identifiers.
fn flavors_from_values(vals: &Vec<serde_json::Value>) -> (r: Option<Vec<Flavor>>)
    ensures
        ({
            let jm = Seq::new(vals@.len(), |i: int| value_rep(vals@[i]));
            match flavors_of(jm) {
                Some(t) => r matches Some(v) && v@ == t,
                None => r is None,
            }
        }),
{
    let ghost jm = Seq::new(vals@.len(), |i: int| value_rep(vals@[i]));
    let n = vals.len();
    let mut out: Vec<Flavor> = Vec::new();
    let mut i: usize = 0;
    proof {
        assert(jm.subrange(0, 0) =~= Seq::<JsonData>::empty());
    }
    while i < n
        invariant
            i <= n,
            n == vals@.len(),
            jm == Seq::new(vals@.len(), |k: int| value_rep(vals@[k])),
            flavors_of(jm.subrange(0, i as int)) == Some(out@),
        decreases n - i,
    {
        proof {
            assert(jm.subrange(0, (i + 1) as int).drop_last() =~= jm.subrange(0, i as int));
            assert(jm.subrange(0, (i + 1) as int).last() == jm[i as int]);
        }
        let parsed: Option<Flavor> = match value_as_str(&vals[i]) {
            Some(s) => Flavor::from_identifier(s),
            None => None,
        };
        match parsed {
            Some(f) => {
                out.push(f);
                proof {
                    assert(out@ =~= flavors_of(jm.subrange(0, (i + 1) as int)).unwrap());
                }
            },
            None => {
                proof {
                    lemma_flavors_of_prefix_none(jm, i + 1);
                }
                return None;
            },
        }
        i += 1;
    }
    proof {
        assert(jm.subrange(0, n as int) =~= jm);
    }
    Some(out)
}

/// Reads one catalog record out of a parsed JSON value.
pub fn addon_from_value(v: &serde_json::Value) -> (r: Option<CatalogAddon>)
    ensures
        match addon_of(value_rep(*v)) {
            Some(m) => r matches Some(a) && a@ == m,
            None => r is None,
        },
{
    let id_v = match value_get(v, "id") {
        Some(x) => x,
        None => {
            return None;
        },
    };
    let id64 = match value_as_u64(id_v) {
        Some(n) => n,
        None => {
            return None;
        },
    };
    if id64 > u32::MAX as u64 {
        return None;
    }
    let id: u32 = id64 as u32;
    let name = match value_get(v, "name") {
        Some(x) => match value_as_str(x) {
            Some(s) => s.to_owned(),
            None => {
                return None;
            },
        },
        None => {
            return None;
        },
    };
    let categories = match value_get(v, "categories") {
        Some(x) => match value_as_array(x) {
            Some(a) => {
                proof {
                    if let JsonData::Arr(s) = value_rep(*x) {
                        assert(Seq::new(a@.len(), |i: int| value_rep(a@[i])) =~= s);
                    }
                }
                match strings_from_values(a) {
                    Some(cs) => cs,
                    None => {
                        return None;
                    },
                }
            },
            None => {
                return None;
            },
        },
        None => {
            return None;
        },
    };
    let summary = match value_get(v, "summary") {
        Some(x) => match value_as_str(x) {
            Some(s) => s.to_owned(),
            None => {
                return None;
            },
        },
        None => {
            return None;
        },
    };
    let number_of_downloads = match value_get(v, "numberOfDownloads") {
        Some(x) => match value_as_u64(x) {
            Some(n) => n,
            None => {
                return None;
            },
        },
        None => {
            return None;
        },
    };
    let source = match value_get(v, "source") {
        Some(x) => match value_as_str(x) {
            Some(s) => {
                if crate::strutil::str_eq(s, "curse") {
                    Source::Curse
                } else {
                    return None;
                }
            },
            None => {
                return None;
            },
        },
        None => {
            return None;
        },
    };
    let flavors = match value_get(v, "flavors") {
        Some(x) => match value_as_array(x) {
            Some(a) => {
                proof {
                    if let JsonData::Arr(s) = value_rep(*x) {
                        assert(Seq::new(a@.len(), |i: int| value_rep(a@[i])) =~= s);
                    }
                }
                match flavors_from_values(a) {
                    Some(fs) => fs,
                    None => {
                        return None;
                    },
                }
            },
            None => {
                return None;
            },
        },
        None => {
            return None;
        },
    };
    Some(CatalogAddon { id, name, categories, summary, number_of_downloads, source, flavors })
}

/// Reads a whole catalog out of a parsed JSON value.
pub fn catalog_from_value(v: &serde_json::Value) -> (r: Option<Catalog>)
    ensures
        match catalog_of(value_rep(*v)) {
            Some(s) => r matches Some(c) && c@ == s,
            None => r is None,
        },
{
    let arr = match value_as_array(v) {
        Some(a) => a,
        None => {
            return None;
        },
    };
    let ghost jm = Seq::new(arr@.len(), |i: int| value_rep(arr@[i]));
    proof {
        if let JsonData::Arr(s) = value_rep(*v) {
            assert(jm =~= s);
        }
        assert(jm.subrange(0, 0) =~= Seq::<JsonData>::empty());
    }
    let n = arr.len();
    let mut out: Vec<CatalogAddon> = Vec::new();
    let mut i: usize = 0;
    proof {
        assert(addons_model(out@) =~= Seq::<AddonModel>::empty());
    }
    while i < n
        invariant
            i <= n,
            n == arr@.len(),
            jm == Seq::new(arr@.len(), |k: int| value_rep(arr@[k])),
            value_rep(*v) matches JsonData::Arr(s) && s == jm,
            addons_of(jm.subrange(0, i as int)) == Some(addons_model(out@)),
        decreases n - i,
    {
        proof {
            assert(jm.subrange(0, (i + 1) as int).drop_last() =~= jm.subrange(0, i as int));
            assert(jm.subrange(0, (i + 1) as int).last() == jm[i as int]);
        }
        match addon_from_value(&arr[i]) {
            Some(a) => {
                out.push(a);
                proof {
                    assert(addons_model(out@) =~= addons_of(
                        jm.subrange(0, (i + 1) as int),
                    ).unwrap());
                }
            },
            None => {
                proof {
                    assert(jm[i as int] == value_rep(arr@[i as int]));
                    lemma_addons_of_prefix_none(jm, i + 1);
                    assert(value_rep(*v) is Arr);
                    assert(catalog_of(value_rep(*v)) is None);
                }
                return None;
            },
        }
        i += 1;
    }
    proof {
        assert(jm.subrange(0, n as int) =~= jm);
    }
    Some(Catalog { addons: out })
}

/// Decodes a catalog document text: well-formed JSON describing an array
/// of records yields the catalog; anything else yields nothing.
pub fn parse_catalog_document(body: &str) -> (r: Option<Catalog>)
    ensures
        match decode_catalog(body@) {
            Some(s) => r matches Some(c) && c@ == s,
            None => r is None,
        },
{
    match parse_value(body) {
        Some(v) => catalog_from_value(&v),
        None => None,
    }
}

/// Whether an HTTP status code reports success.
pub open spec fn is_success_status(status: u16) -> bool {
    200 <= status < 300
}

/// Why a catalog fetch failed: a non-success HTTP status, carrying the
/// response body text for diagnostics, or a body that did not decode as
/// the catalog document.
#[derive(Debug, Clone, PartialEq)]
pub enum CatalogError {
    Http { status: u16, body: String },
    Decode,
}

impl CatalogError {
    /// A diagnostic description; the HTTP failure carries the response
    /// body text.
    pub fn message(&self) -> (r: String)
        ensures
            match self {
                CatalogError::Http { status, body } => r@ == "Couldn't fetch catalog: "@ + body@,
                CatalogError::Decode => r@ == "Couldn't decode catalog"@,
            },
    {
        match self {
            CatalogError::Http { status: _, body } => {
                let prefix: String = String::from_str("Couldn't fetch catalog: ");
                prefix.concat(body.as_str())
            },
            CatalogError::Decode => String::from_str("Couldn't decode catalog"),
        }
    }
}

/// Turns one HTTP response into a catalog or a failure: a success status
/// with a body describing a catalog yields it; a success status with any
/// other body is a decode failure; a non-success status is an HTTP
/// failure carrying the body text. Exactly one of the three happens.
pub fn catalog_from_response(status: u16, body: String) -> (r: Result<Catalog, CatalogError>)
    ensures
        !is_success_status(status) ==> (r matches Err(e) && e == (CatalogError::Http {
            status,
            body: body,
        })),
        is_success_status(status) ==> match decode_catalog(body@) {
            Some(s) => r matches Ok(c) && c@ == s,
            None => r matches Err(e) && e == CatalogError::Decode,
        },
{
    if status < 200 || status >= 300 {
        return Err(CatalogError::Http { status, body });
    }
    match parse_catalog_document(body.as_str()) {
        Some(c) => Ok(c),
        None => Err(CatalogError::Decode),
    }
}

} // verus!
