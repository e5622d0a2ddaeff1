use crate::extension::{sort_extensions, sort_key, sorted_by_key, stable_sort_of, ExtensionData};
use crate::text::{opt_seq, views};
use vstd::prelude::*;

verus! {

#[verifier::external_type_specification]
#[verifier::external_body]
pub struct ExJsonValue(serde_json::Value);

#[verifier::external_type_specification]
#[verifier::external_body]
pub struct ExJsonError(serde_json::Error);

/// Why a manifest could not be read.
#[derive(Debug, Clone, Copy, PartialEq, Eq)]
pub enum ManifestError {
    /// The text is not JSON.
    Syntax,
    /// `name` is missing or not a string.
    MissingName,
    /// `version` is missing or not a string.
    MissingVersion,
    /// `publisher` is missing or not a string.
    MissingPublisher,
    /// `categories` holds an item that is not a string.
    BadCategory,
}

/// Whether a text is a JSON document.
pub uninterp spec fn json_parses(text: Seq<char>) -> bool;

/// The string held by a member of a JSON document: none when the text is not
/// JSON, is not an object, lacks the member, or the member is not a string.
pub uninterp spec fn json_str_member(text: Seq<char>, key: Seq<char>) -> Option<Seq<char>>;

/// The items of an array member of a JSON document, each with its string if it
/// is one: none when the text is not JSON, is not an object, lacks the member,
/// or the member is not an array.
pub uninterp spec fn json_str_items(text: Seq<char>, key: Seq<char>) -> Option<
    Seq<Option<Seq<char>>>,
>;

/// The views of optional strings.
pub open spec fn items_view(v: Seq<Option<String>>) -> Seq<Option<Seq<char>>> {
    v.map_values(|c: Option<String>| opt_seq(c))
}

/// The view of an optional list of optional strings.
pub open spec fn opt_items(v: Option<Vec<Option<String>>>) -> Option<Seq<Option<Seq<char>>>> {
    match v {
        Some(l) => Some(items_view(l@)),
        None => None,
    }
}

/// Relies on `serde_json::from_str` into a `serde_json::Value`: it succeeds
/// exactly on JSON texts.
#[verifier::external_body]
fn parse_json(text: &str) -> (r: Result<serde_json::Value, serde_json::Error>)
    ensures
        r is Ok <==> json_parses(text@),
{
    serde_json::from_str::<serde_json::Value>(text)
}

/// Relies on `serde_json::from_str`, `Value::get` and `Value::as_str`: the
/// string member `key` of the document.
#[verifier::external_body]
fn member_str(text: &str, key: &str) -> (r: Option<String>)
    ensures
        opt_seq(r) == json_str_member(text@, key@),
{
    let doc = serde_json::from_str::<serde_json::Value>(text).ok();
    doc.and_then(|v| v.get(key).and_then(|m| m.as_str()).map(|s| s.to_string()))
}

/// Relies on `serde_json::from_str`, `Value::get`, `Value::as_array` and
/// `Value::as_str`: the items of the array member `key` of the document.
#[verifier::external_body]
fn member_str_items(text: &str, key: &str) -> (r: Option<Vec<Option<String>>>)
    ensures
        opt_items(r) == json_str_items(text@, key@),
{
    let doc = serde_json::from_str::<serde_json::Value>(text).ok();
    doc.and_then(|v| {
        v.get(key).and_then(|m| m.as_array()).map(
            |a| a.iter().map(|i| i.as_str().map(|s| s.to_string())).collect(),
        )
    })
}

/// All the categories are present as text.
pub open spec fn all_present(cats: Seq<Option<Seq<char>>>) -> bool {
    forall|i: int| 0 <= i < cats.len() ==> (#[trigger] cats[i]) is Some
}

/// The texts of the categories.
pub open spec fn present_values(cats: Seq<Option<Seq<char>>>) -> Seq<Seq<char>> {
    cats.map_values(|c: Option<Seq<char>>| c.unwrap())
}

/// The error, if any, for a manifest whose members read as given.
pub open spec fn fields_error(
    name: Option<Seq<char>>,
    version: Option<Seq<char>>,
    publisher: Option<Seq<char>>,
    categories: Option<Seq<Option<Seq<char>>>>,
) -> Option<ManifestError> {
    if name is None {
        Some(ManifestError::MissingName)
    } else if version is None {
        Some(ManifestError::MissingVersion)
    } else if publisher is None {
        Some(ManifestError::MissingPublisher)
    } else if categories is Some && !all_present(categories.unwrap()) {
        Some(ManifestError::BadCategory)
    } else {
        None
    }
}

/// A record holds the given members; categories that are not given are none.
pub open spec fn fields_match(
    e: ExtensionData,
    name: Option<Seq<char>>,
    version: Option<Seq<char>>,
    publisher: Option<Seq<char>>,
    display_name: Option<Seq<char>>,
    description: Option<Seq<char>>,
    categories: Option<Seq<Option<Seq<char>>>>,
    icon: Option<Seq<char>>,
) -> bool {
    &&& e.name@ == name.unwrap()
    &&& e.version@ == version.unwrap()
    &&& e.publisher@ == publisher.unwrap()
    &&& opt_seq(e.display_name) == display_name
    &&& opt_seq(e.description) == description
    &&& opt_seq(e.icon) == icon
    &&& categories is None ==> e.categories@.len() == 0
    &&& categories is Some ==> views(e.categories@) == present_values(categories.unwrap())
}

/// Why a manifest text cannot be read, if it cannot. A `categories` member
/// that is not an array counts as absent.
pub open spec fn manifest_error(t: Seq<char>) -> Option<ManifestError> {
    if !json_parses(t) {
        Some(ManifestError::Syntax)
    } else {
        fields_error(
            json_str_member(t, "name"@),
            json_str_member(t, "version"@),
            json_str_member(t, "publisher"@),
            json_str_items(t, "categories"@),
        )
    }
}

/// The record that a manifest text describes.
pub open spec fn record_of(e: ExtensionData, t: Seq<char>) -> bool {
    fields_match(
        e,
        json_str_member(t, "name"@),
        json_str_member(t, "version"@),
        json_str_member(t, "publisher"@),
        json_str_member(t, "displayName"@),
        json_str_member(t, "description"@),
        json_str_items(t, "categories"@),
        json_str_member(t, "icon"@),
    )
}

/// `r` holds one record per manifest text of `ms`, the record of `ms[p[k]]`
/// at position `k`, ordered by key, with equal keys in the order of `ms`.
pub open spec fn catalog_of(r: Seq<ExtensionData>, ms: Seq<Seq<char>>, p: Seq<int>) -> bool {
    &&& p.len() == r.len()
    &&& r.len() == ms.len()
    &&& forall|k: int| 0 <= k < p.len() ==> 0 <= #[trigger] p[k] < ms.len()
    &&& forall|k: int, l: int|
        0 <= k < p.len() && 0 <= l < p.len() && k != l ==> #[trigger] p[k] != #[trigger] p[l]
    &&& forall|k: int| 0 <= k < r.len() ==> record_of(#[trigger] r[k], ms[p[k]])
    &&& sorted_by_key(r)
    &&& forall|k: int, l: int|
        0 <= k < l < r.len() && sort_key(#[trigger] r[k]) == sort_key(#[trigger] r[l]) ==> p[k] < p[l]
}

/// The texts of the categories, if every one of them is a string.
fn present_categories(list: Vec<Option<String>>) -> (r: Option<Vec<String>>)
    ensures
        r is Some <==> all_present(items_view(list@)),
        r is Some ==> views(r.unwrap()@) == present_values(items_view(list@)),
{
    let ghost src = list@;
    let ghost iv = items_view(list@);
    let mut rest = list;
    let mut cats: Vec<String> = Vec::new();
    while rest.len() > 0
        invariant
            src == list@,
            iv == items_view(src),
            rest@ == src.skip(cats@.len() as int),
            cats@.len() <= src.len(),
            forall|i: int| 0 <= i < cats@.len() ==> (#[trigger] iv[i]) is Some,
            views(cats@) == present_values(iv.take(cats@.len() as int)),
        decreases rest@.len(),
    {
        let ghost k = cats@.len() as int;
        let c = rest.remove(0);
        proof {
            assert(src.skip(k)[0] == src[k]);
            assert(src[k] == c);
            assert(iv[k] == opt_seq(c));
        }
        match c {
            Some(t) => {
                let ghost old_cats = cats@;
                cats.push(t);
                proof {
                    assert(views(cats@) =~= views(old_cats).push(iv[k].unwrap()));
                    assert(iv.take(k + 1) =~= iv.take(k).push(iv[k]));
                    assert(present_values(iv.take(k).push(iv[k])) =~= present_values(
                        iv.take(k),
                    ).push(iv[k].unwrap()));
                    assert(rest@ =~= src.skip(k + 1));
                }
            },
            None => {
                proof {
                    assert(iv[k] is None);
                }
                return None;
            },
        }
    }
    proof {
        assert(iv.take(cats@.len() as int) =~= iv);
    }
    Some(cats)
}

impl ExtensionData {
    /// Builds a record from the members of a manifest: `name`, `version` and
    /// `publisher` are required, a missing list of categories is empty, and
    /// every category must be a string.
    pub fn from_fields(
        name: Option<String>,
        version: Option<String>,
        publisher: Option<String>,
        display_name: Option<String>,
        description: Option<String>,
        categories: Option<Vec<Option<String>>>,
        icon: Option<String>,
    ) -> (r: Result<ExtensionData, ManifestError>)
        ensures
            ({
                let err = fields_error(
                    opt_seq(name),
                    opt_seq(version),
                    opt_seq(publisher),
                    opt_items(categories),
                );
                &&& err is Some ==> r == Err::<ExtensionData, ManifestError>(err.unwrap())
                &&& err is None ==> r is Ok && fields_match(
                    r.unwrap(),
                    opt_seq(name),
                    opt_seq(version),
                    opt_seq(publisher),
                    opt_seq(display_name),
                    opt_seq(description),
                    opt_items(categories),
                    opt_seq(icon),
                )
            }),
    {
        let name = match name {
            Some(n) => n,
            None => return Err(ManifestError::MissingName),
        };
        let version = match version {
            Some(v) => v,
            None => return Err(ManifestError::MissingVersion),
        };
        let publisher = match publisher {
            Some(p) => p,
            None => return Err(ManifestError::MissingPublisher),
        };
        let cats: Vec<String> = match categories {
            None => Vec::new(),
            Some(list) => match present_categories(list) {
                Some(c) => c,
                None => return Err(ManifestError::BadCategory),
            },
        };
        Ok(
            ExtensionData {
                publisher,
                name,
                version,
                display_name,
                description,
                categories: cats,
                icon,
            },
        )
    }
}

/// Reads the members of one extension's manifest into a record.
pub fn parse_manifest(text: &str) -> (r: Result<ExtensionData, ManifestError>)
    ensures
        manifest_error(text@) is Some ==> r == Err::<ExtensionData, ManifestError>(
            manifest_error(text@).unwrap(),
        ),
        manifest_error(text@) is None ==> r is Ok && record_of(r.unwrap(), text@),
{
    if parse_json(text).is_err() {
        return Err(ManifestError::Syntax);
    }
    ExtensionData::from_fields(
        member_str(text, "name"),
        member_str(text, "version"),
        member_str(text, "publisher"),
        member_str(text, "displayName"),
        member_str(text, "description"),
        member_str_items(text, "categories"),
        member_str(text, "icon"),
    )
}

/// Reads every manifest and orders the records by key, ignoring case, with
/// equal keys in the order of the manifests. The first manifest that cannot
/// be read stops the whole catalog, and its error is returned.
pub fn get_extension_data(manifests: &Vec<String>) -> (r: Result<Vec<ExtensionData>, ManifestError>)
    ensures
        r is Ok <==> forall|i: int|
            0 <= i < manifests@.len() ==> manifest_error(#[trigger] manifests@[i]@) is None,
        r is Ok ==> exists|p: Seq<int>| catalog_of(r.unwrap()@, views(manifests@), p),
        r is Err ==> exists|i: int|
            0 <= i < manifests@.len() && manifest_error(#[trigger] manifests@[i]@) is Some && (
            forall|j: int| 0 <= j < i ==> manifest_error(#[trigger] manifests@[j]@) is None) && r
                == Err::<Vec<ExtensionData>, ManifestError>(manifest_error(manifests@[i]@).unwrap()),
{
    let ghost ms = views(manifests@);
    let mut exts: Vec<ExtensionData> = Vec::new();
    let mut i: usize = 0;
    while i < manifests.len()
        invariant
            ms == views(manifests@),
            i <= manifests@.len(),
            exts@.len() == i,
            forall|j: int| 0 <= j < i ==> manifest_error(#[trigger] manifests@[j]@) is None,
            forall|j: int| 0 <= j < i ==> record_of(#[trigger] exts@[j], ms[j]),
        decreases manifests@.len() - i,
    {
        match parse_manifest(manifests[i].as_str()) {
            Ok(e) => {
                exts.push(e);
            },
            Err(err) => {
                proof {
                    assert(manifest_error(manifests@[i as int]@) is Some);
                }
                return Err(err);
            },
        }
        i = i + 1;
    }
    let ghost parsed = exts@;
    let sorted = sort_extensions(exts);
    proof {
        let p = choose|p: Seq<int>| stable_sort_of(sorted@, parsed, p);
        assert forall|k: int| 0 <= k < sorted@.len() implies record_of(
            #[trigger] sorted@[k],
            ms[p[k]],
        ) by {
            assert(sorted@[k] == parsed[p[k]]);
            assert(0 <= p[k] < parsed.len());
            assert(record_of(parsed[p[k]], ms[p[k]]));
        }
        assert(ms.len() == manifests@.len());
        assert(catalog_of(sorted@, ms, p));
        assert(catalog_of(sorted@, views(manifests@), p));
    }
    let ghost sv = sorted@;
    let result: Result<Vec<ExtensionData>, ManifestError> = Ok(sorted);
    proof {
        assert(result.unwrap()@ == sv);
        let p = choose|p: Seq<int>| catalog_of(sv, views(manifests@), p);
        assert(catalog_of(result.unwrap()@, views(manifests@), p));
    }
    result
}

} // verus!
