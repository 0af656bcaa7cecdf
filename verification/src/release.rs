//! Release metadata: the latest tag and its downloadable assets.
//!
//! The release API answers with a JSON document holding a `tag_name`
//! string and an `assets` array of named download URLs. The document
//! is decoded by serde_json behind trusted wrappers whose contracts
//! speak of a named model of the document; what is then decided on the
//! decoded values — tag usability, asset collection, asset selection —
//! is verified against that model.

use vstd::prelude::*;

use crate::chars::{ends_with, has_substring, lower, spec_trim, trim_spaces};
use crate::chars::{contains_ci, ends_with_ci};

verus! {

/// One downloadable release asset: a name and a download URL.
#[derive(Debug)]
pub struct Asset {
    pub name: String,
    pub url: String,
}

/// The mathematical content of an asset.
pub ghost struct AssetView {
    pub name: Seq<char>,
    pub url: Seq<char>,
}

impl View for Asset {
    type V = AssetView;

    open spec fn view(&self) -> AssetView {
        AssetView { name: self.name@, url: self.url@ }
    }
}

pub open spec fn assets_view(s: Seq<Asset>) -> Seq<AssetView> {
    s.map_values(|a: Asset| a@)
}

/// A tag name and its ordered assets, built fresh per update check.
#[derive(Debug)]
pub struct ReleaseInfo {
    pub tag: String,
    pub assets: Vec<Asset>,
}

/// What a release body yields: a usable release, or no information
/// (the feed omitted or blanked the tag — a soft outcome, not an
/// error).
#[derive(Debug)]
pub enum ReleaseQuery {
    Release(ReleaseInfo),
    NoInfo,
}

/// How fetching or reading release metadata fails.
#[derive(Clone, Copy, Debug, PartialEq, Eq, Structural)]
pub enum ReleaseError {
    /// The endpoint could not be reached.
    Transport,
    /// The endpoint answered with a non-success HTTP status.
    ApiStatus(u16),
    /// The body is not a JSON document.
    Parse,
}

/// The shape of a decoded JSON value, as far as this crate reads one:
/// strings, arrays and objects are distinguished; every other kind
/// (null, booleans, numbers) is never inspected further.
pub ghost enum JsonDoc {
    Str(Seq<char>),
    Arr(Seq<JsonDoc>),
    Obj(Map<Seq<char>, JsonDoc>),
    Other,
}

/// The model of a decoded serde_json value.
pub uninterp spec fn value_model(v: serde_json::Value) -> JsonDoc;

/// What decoding the given body yields: the model of the document it
/// holds, or nothing when it is not valid JSON. A function of the
/// characters alone.
pub uninterp spec fn json_of(body: Seq<char>) -> Option<JsonDoc>;

pub open spec fn models_of(vs: Seq<serde_json::Value>) -> Seq<JsonDoc> {
    vs.map_values(|v: serde_json::Value| value_model(v))
}

/// Relies on serde_json::from_str::<Value>: decodes a JSON document, a
/// deterministic function of the body; `None` exactly when the body is
/// not valid JSON.
#[verifier::external_body]
fn json_parse(body: &str) -> (r: Option<serde_json::Value>)
    ensures
        r is Some <==> json_of(body@) is Some,
        r matches Some(v) ==> value_model(v) == json_of(body@)->0,
{
    serde_json::from_str::<serde_json::Value>(body).ok()
}

/// Relies on serde_json::Value::get: the value under `key` exactly
/// when `v` is an object that has it.
#[verifier::external_body]
fn json_get<'a>(v: &'a serde_json::Value, key: &str) -> (r: Option<&'a serde_json::Value>)
    ensures
        match value_model(*v) {
            JsonDoc::Obj(m) => if m.contains_key(key@) {
                r matches Some(u) && value_model(*u) == m[key@]
            } else {
                r is None
            },
            _ => r is None,
        },
{
    v.get(key)
}

/// Relies on serde_json::Value::as_str: the owned text exactly when
/// `v` is a JSON string.
#[verifier::external_body]
fn json_str(v: &serde_json::Value) -> (r: Option<String>)
    ensures
        match value_model(*v) {
            JsonDoc::Str(s) => r matches Some(t) && t@ == s,
            _ => r is None,
        },
{
    v.as_str().map(|s| s.to_string())
}

/// Relies on serde_json::Value::as_array: the elements exactly when
/// `v` is a JSON array.
#[verifier::external_body]
fn json_array(v: &serde_json::Value) -> (r: Option<Vec<serde_json::Value>>)
    ensures
        match value_model(*v) {
            JsonDoc::Arr(es) => r matches Some(vs) && models_of(vs@) == es,
            _ => r is None,
        },
{
    v.as_array().map(|a| a.clone())
}

#[verifier::external_type_specification]
#[verifier::external_body]
pub struct ExValue(serde_json::Value);

/// The document's `tag_name` field, when the document is an object
/// that holds it as a string.
pub open spec fn tag_field(doc: JsonDoc) -> Option<Seq<char>> {
    match doc {
        JsonDoc::Obj(m) => if m.contains_key("tag_name"@) {
            match m["tag_name"@] {
                JsonDoc::Str(s) => Some(s),
                _ => None,
            }
        } else {
            None
        },
        _ => None,
    }
}

/// The document's `assets` array, when the document is an object that
/// holds one; empty otherwise.
pub open spec fn assets_field(doc: JsonDoc) -> Seq<JsonDoc> {
    match doc {
        JsonDoc::Obj(m) => if m.contains_key("assets"@) {
            match m["assets"@] {
                JsonDoc::Arr(es) => es,
                _ => Seq::empty(),
            }
        } else {
            Seq::empty()
        },
        _ => Seq::empty(),
    }
}

/// The asset a listed element yields: its `name` and
/// `browser_download_url` strings, when it carries both.
pub open spec fn asset_of(d: JsonDoc) -> Option<AssetView> {
    match d {
        JsonDoc::Obj(m) => if m.contains_key("name"@) && m.contains_key(
            "browser_download_url"@,
        ) {
            match (m["name"@], m["browser_download_url"@]) {
                (JsonDoc::Str(n), JsonDoc::Str(u)) => Some(AssetView { name: n, url: u }),
                _ => None,
            }
        } else {
            None
        },
        _ => None,
    }
}

/// The assets of a listed element sequence, in listed order, keeping
/// exactly the elements that carry both fields.
pub open spec fn assets_of_list(es: Seq<JsonDoc>) -> Seq<AssetView>
    decreases es.len(),
{
    if es.len() == 0 {
        Seq::empty()
    } else {
        let rest = assets_of_list(es.drop_last());
        match asset_of(es.last()) {
            Some(av) => rest.push(av),
            None => rest,
        }
    }
}

proof fn lemma_assets_of_push(s: Seq<JsonDoc>, x: JsonDoc)
    ensures
        assets_of_list(s.push(x)) == (match asset_of(x) {
            Some(av) => assets_of_list(s).push(av),
            None => assets_of_list(s),
        }),
{
    assert(s.push(x).drop_last() =~= s);
    assert(s.push(x).last() == x);
}

/// Keep the assets that carry both a name and a download URL, in
/// their listed order.
fn collect_assets(arr: &Vec<serde_json::Value>) -> (r: Vec<Asset>)
    ensures
        assets_view(r@) == assets_of_list(models_of(arr@)),
{
    let mut out: Vec<Asset> = Vec::new();
    let mut i: usize = 0;
    proof {
        assert(models_of(arr@.subrange(0, 0)) =~= Seq::<JsonDoc>::empty());
        assert(assets_view(out@) =~= Seq::<AssetView>::empty());
    }
    while i < arr.len()
        invariant
            0 <= i <= arr.len(),
            assets_view(out@) == assets_of_list(models_of(arr@.subrange(0, i as int))),
        decreases arr.len() - i,
    {
        let ghost pre = models_of(arr@.subrange(0, i as int));
        let ghost out_pre = assets_view(out@);
        let v = &arr[i];
        let name = match json_get(v, "name") {
            Some(n) => json_str(n),
            None => None,
        };
        let url = match json_get(v, "browser_download_url") {
            Some(u) => json_str(u),
            None => None,
        };
        proof {
            lemma_assets_of_push(pre, value_model(*v));
            assert(models_of(arr@.subrange(0, i + 1)) =~= pre.push(value_model(*v)));
        }
        match (name, url) {
            (Some(n), Some(u)) => {
                let a = Asset { name: n, url: u };
                proof {
                    assert(asset_of(value_model(*v)) == Some(a@));
                }
                out.push(a);
                proof {
                    assert(assets_view(out@) =~= out_pre.push(
                        asset_of(value_model(*v))->0,
                    ));
                }
            },
            _ => {
                proof {
                    assert(asset_of(value_model(*v)) is None);
                }
            },
        }
        i = i + 1;
    }
    proof {
        assert(arr@.subrange(0, arr@.len() as int) =~= arr@);
    }
    out
}

/// Decide what decoded release fields mean: a missing tag, or one that
/// trims to nothing, yields `NoInfo`; otherwise the trimmed tag and
/// the assets make a release.
pub fn classify_release(tag: Option<String>, assets: Vec<Asset>) -> (r: ReleaseQuery)
    ensures
        match tag {
            None => r == ReleaseQuery::NoInfo,
            Some(t) => if spec_trim(t@).len() == 0 {
                r == ReleaseQuery::NoInfo
            } else {
                r matches ReleaseQuery::Release(info) && info.tag@ == spec_trim(t@)
                    && assets_view(info.assets@) == assets_view(assets@)
            },
        },
{
    match tag {
        None => ReleaseQuery::NoInfo,
        Some(t) => {
            let trimmed = trim_spaces(t.as_str());
            if trimmed.unicode_len() == 0 {
                ReleaseQuery::NoInfo
            } else {
                ReleaseQuery::Release(ReleaseInfo { tag: String::from_str(trimmed), assets })
            }
        },
    }
}

/// Read one release-API response body. `Err(Parse)` exactly when the
/// body is not a JSON document; otherwise the outcome is fixed by the
/// document: `NoInfo` exactly when its `tag_name` is absent, not a
/// string, or trims to nothing, and else a release whose tag is the
/// trimmed `tag_name` — nonempty, in trimmed form — and whose assets
/// are the document's complete name-and-URL pairs in listed order.
pub fn parse_release_body(body: &str) -> (r: Result<ReleaseQuery, ReleaseError>)
    ensures
        r is Err <==> json_of(body@) is None,
        r matches Err(e) ==> e == ReleaseError::Parse,
        r matches Ok(q) ==> (q matches ReleaseQuery::Release(info) ==> info.tag@.len() > 0
            && spec_trim(info.tag@) == info.tag@),
        json_of(body@) matches Some(doc) ==> match tag_field(doc) {
            None => r == Ok::<ReleaseQuery, ReleaseError>(ReleaseQuery::NoInfo),
            Some(tg) => if spec_trim(tg).len() == 0 {
                r == Ok::<ReleaseQuery, ReleaseError>(ReleaseQuery::NoInfo)
            } else {
                r matches Ok(ReleaseQuery::Release(info)) && info.tag@ == spec_trim(tg)
                    && assets_view(info.assets@) == assets_of_list(assets_field(doc))
            },
        },
{
    let doc_v = match json_parse(body) {
        Some(d) => d,
        None => {
            return Err(ReleaseError::Parse);
        },
    };
    let ghost doc = json_of(body@)->0;
    let tag = match json_get(&doc_v, "tag_name") {
        Some(t) => json_str(t),
        None => None,
    };
    proof {
        assert(match tag_field(doc) {
            None => tag is None,
            Some(s) => tag matches Some(t) && t@ == s,
        });
    }
    let assets = match json_get(&doc_v, "assets") {
        Some(a) => match json_array(a) {
            Some(arr) => collect_assets(&arr),
            None => Vec::new(),
        },
        None => Vec::new(),
    };
    proof {
        if assets_field(doc).len() == 0 {
            assert(assets_of_list(assets_field(doc)) =~= Seq::<AssetView>::empty());
        }
        assert(assets_view(assets@) == assets_of_list(assets_field(doc)));
        if tag is Some {
            crate::chars::lemma_trim_idempotent(tag->0@);
        }
    }
    Ok(classify_release(tag, assets))
}

/// The asset-selection predicate: the folded name contains the folded
/// `needle` and ends with the folded `suffix` (ASCII case folding).
pub open spec fn asset_matches(name: Seq<char>, needle: Seq<char>, suffix: Seq<char>) -> bool {
    has_substring(lower(name), lower(needle)) && ends_with(lower(name), lower(suffix))
}

pub open spec fn first_match_from(
    s: Seq<AssetView>,
    needle: Seq<char>,
    suffix: Seq<char>,
    i: int,
) -> Option<int>
    recommends
        0 <= i,
    decreases s.len() - i,
{
    if i < 0 || i >= s.len() {
        None
    } else if asset_matches(s[i].name, needle, suffix) {
        Some(i)
    } else {
        first_match_from(s, needle, suffix, i + 1)
    }
}

/// Index of the first asset whose name matches, if any.
pub open spec fn first_match(s: Seq<AssetView>, needle: Seq<char>, suffix: Seq<char>) -> Option<
    int,
> {
    first_match_from(s, needle, suffix, 0)
}

/// Return the first asset (in listed order) whose name matches the
/// case-insensitive needle-and-suffix predicate; nothing when no asset
/// matches — an expected outcome, not an error.
pub fn find_asset(assets: &Vec<Asset>, needle: &str, suffix: &str) -> (r: Option<Asset>)
    ensures
        match first_match(assets_view(assets@), needle@, suffix@) {
            Some(i) => r matches Some(a) && a@ == assets_view(assets@)[i],
            None => r is None,
        },
{
    let ghost vs = assets_view(assets@);
    let mut i: usize = 0;
    while i < assets.len()
        invariant
            0 <= i <= assets.len(),
            vs == assets_view(assets@),
            vs.len() == assets.len(),
            first_match(vs, needle@, suffix@) == first_match_from(vs, needle@, suffix@, i as int),
        decreases assets.len() - i,
    {
        let a = &assets[i];
        if contains_ci(a.name.as_str(), needle) && ends_with_ci(a.name.as_str(), suffix) {
            let found = Asset { name: a.name.clone(), url: a.url.clone() };
            proof {
                assert(asset_matches(vs[i as int].name, needle@, suffix@));
                assert(first_match_from(vs, needle@, suffix@, i as int) == Some(i as int));
                assert(found@ == vs[i as int]);
            }
            return Some(found);
        }
        proof {
            assert(!asset_matches(vs[i as int].name, needle@, suffix@));
        }
        i = i + 1;
    }
    None
}

/// Over an empty asset list no asset is ever found.
pub proof fn lemma_find_asset_empty(needle: Seq<char>, suffix: Seq<char>)
    ensures
        first_match(Seq::<AssetView>::empty(), needle, suffix) is None,
{
}

proof fn lemma_first_match_reaches(
    s: Seq<AssetView>,
    needle: Seq<char>,
    suffix: Seq<char>,
    j: int,
    m: int,
)
    requires
        0 <= j <= m < s.len(),
        asset_matches(s[m].name, needle, suffix),
        forall|k: int| j <= k < m ==> !asset_matches(#[trigger] s[k].name, needle, suffix),
    ensures
        first_match_from(s, needle, suffix, j) == Some(m),
    decreases m - j,
{
    if j < m {
        lemma_first_match_reaches(s, needle, suffix, j + 1, m);
    }
}

/// When exactly one asset matches, it is found no matter where in the
/// list it stands.
pub proof fn lemma_find_asset_single_match(
    s: Seq<AssetView>,
    needle: Seq<char>,
    suffix: Seq<char>,
    m: int,
)
    requires
        0 <= m < s.len(),
        asset_matches(s[m].name, needle, suffix),
        forall|k: int|
            0 <= k < s.len() && k != m ==> !asset_matches(#[trigger] s[k].name, needle, suffix),
    ensures
        first_match(s, needle, suffix) == Some(m),
{
    lemma_first_match_reaches(s, needle, suffix, 0, m);
}

} // verus!
