//! Reading single values out of JSON texts.
use vstd::prelude::*;

verus! {

/// Whether `serde_json` reads a text as a JSON value.
pub uninterp spec fn json_valid(json: Seq<char>) -> bool;

/// The JSON text of the member `key` of the object that a JSON text denotes, or
/// nothing where there is no such member.
pub uninterp spec fn member_in(json: Seq<char>, key: Seq<char>) -> Option<Seq<char>>;

/// The JSON text of the item `index` of the array that a JSON text denotes, or
/// nothing where there is no such item.
pub uninterp spec fn item_in(json: Seq<char>, index: usize) -> Option<Seq<char>>;

/// The string that a JSON text denotes, or nothing where it denotes no string.
pub uninterp spec fn string_in(json: Seq<char>) -> Option<Seq<char>>;

/// Calls `serde_json::from_str`. Whether it succeeds is a function of the text
/// alone.
#[verifier::external_body]
pub(crate) fn is_json(json: &str) -> (b: bool)
    ensures
        b == json_valid(json@),
{
    serde_json::from_str::<serde_json::Value>(json).is_ok()
}

/// Calls `serde_json::Value::get` with a key on the value that the text denotes.
/// The result is a function of the text and the key alone; it is nothing where
/// the text denotes no object.
#[verifier::external_body]
pub(crate) fn member(json: &str, key: &str) -> (r: Option<String>)
    ensures
        match r {
            Some(s) => member_in(json@, key@) == Some(s@),
            None => member_in(json@, key@) is None,
        },
{
    let value = serde_json::from_str::<serde_json::Value>(json).ok()?;
    value.get(key).map(|v| v.to_string())
}

/// Calls `serde_json::Value::get` with an index on the value that the text
/// denotes. The result is a function of the text and the index alone; it is
/// nothing where the text denotes no array.
#[verifier::external_body]
pub(crate) fn item(json: &str, index: usize) -> (r: Option<String>)
    ensures
        match r {
            Some(s) => item_in(json@, index) == Some(s@),
            None => item_in(json@, index) is None,
        },
{
    let value = serde_json::from_str::<serde_json::Value>(json).ok()?;
    value.get(index).map(|v| v.to_string())
}

/// Calls `serde_json::Value::as_str` on the value that the text denotes. The
/// result is a function of the text alone.
#[verifier::external_body]
pub(crate) fn string(json: &str) -> (r: Option<String>)
    ensures
        match r {
            Some(s) => string_in(json@) == Some(s@),
            None => string_in(json@) is None,
        },
{
    let value = serde_json::from_str::<serde_json::Value>(json).ok()?;
    value.as_str().map(|s| s.to_string())
}

/// The string member `key` of a JSON object.
pub open spec fn text_member(json: Seq<char>, key: Seq<char>) -> Option<Seq<char>> {
    match member_in(json, key) {
        Some(m) => string_in(m),
        None => None,
    }
}

/// The string member `key` of the member `outer` of a JSON object.
pub open spec fn text_member2(json: Seq<char>, outer: Seq<char>, key: Seq<char>) -> Option<
    Seq<char>,
> {
    match member_in(json, outer) {
        Some(m) => text_member(m, key),
        None => None,
    }
}

/// The string member `key` of the member `outer` of the first item of the array
/// that is the member `list` of a JSON object.
pub open spec fn text_in_first(
    json: Seq<char>,
    list: Seq<char>,
    outer: Seq<char>,
    key: Seq<char>,
) -> Option<Seq<char>> {
    match member_in(json, list) {
        Some(l) => match item_in(l, 0) {
            Some(i) => text_member2(i, outer, key),
            None => None,
        },
        None => None,
    }
}

/// The string member `key` of a JSON object.
pub fn get_text(json: &str, key: &str) -> (r: Option<String>)
    ensures
        match r {
            Some(s) => text_member(json@, key@) == Some(s@),
            None => text_member(json@, key@) is None,
        },
{
    match member(json, key) {
        Some(m) => string(m.as_str()),
        None => None,
    }
}

/// The string member `key` of the member `outer` of a JSON object.
pub fn get_text2(json: &str, outer: &str, key: &str) -> (r: Option<String>)
    ensures
        match r {
            Some(s) => text_member2(json@, outer@, key@) == Some(s@),
            None => text_member2(json@, outer@, key@) is None,
        },
{
    match member(json, outer) {
        Some(m) => get_text(m.as_str(), key),
        None => None,
    }
}

/// The string member `key` of the member `outer` of the first item of the array
/// that is the member `list` of a JSON object.
pub fn get_text_in_first(json: &str, list: &str, outer: &str, key: &str) -> (r: Option<String>)
    ensures
        match r {
            Some(s) => text_in_first(json@, list@, outer@, key@) == Some(s@),
            None => text_in_first(json@, list@, outer@, key@) is None,
        },
{
    match member(json, list) {
        Some(l) => match item(l.as_str(), 0) {
            Some(i) => get_text2(i.as_str(), outer, key),
            None => None,
        },
        None => None,
    }
}

/// A string in a JSON object is found by its key: it is the string that the text of
/// that member denotes, and there is none where there is no such member or it is no
/// string.
pub proof fn strings_are_found_by_their_key(json: Seq<char>, key: Seq<char>, t: Seq<char>)
    ensures
        text_member(json, key) == Some(t) <==> member_in(json, key) is Some && string_in(
            member_in(json, key).unwrap(),
        ) == Some(t),
{
}

/// A string deeper in a JSON object is found by its path: through the member `outer`,
/// or through the member `list`, the first item of that array and its member `outer`.
pub proof fn strings_are_found_by_their_path(
    json: Seq<char>,
    list: Seq<char>,
    outer: Seq<char>,
    key: Seq<char>,
    l: Seq<char>,
    i: Seq<char>,
    m: Seq<char>,
    t: Seq<char>,
)
    ensures
        member_in(json, outer) == Some(m) && member_in(m, key) is Some && string_in(
            member_in(m, key).unwrap(),
        ) == Some(t) ==> text_member2(json, outer, key) == Some(t),
        text_member2(json, outer, key) == Some(t) ==> member_in(json, outer) is Some && member_in(
            member_in(json, outer).unwrap(),
            key,
        ) is Some && string_in(
            member_in(member_in(json, outer).unwrap(), key).unwrap(),
        ) == Some(t),
        member_in(json, list) == Some(l) && item_in(l, 0) == Some(i) && member_in(i, outer) == Some(m)
            && member_in(m, key) is Some && string_in(member_in(m, key).unwrap()) == Some(t)
            ==> text_in_first(json, list, outer, key) == Some(t),
        member_in(json, list) is None ==> text_in_first(json, list, outer, key) is None,
        member_in(json, list) == Some(l) && item_in(l, 0) is None ==> text_in_first(
            json,
            list,
            outer,
            key,
        ) is None,
        member_in(json, list) == Some(l) && item_in(l, 0) == Some(i) && member_in(i, outer) is None
            ==> text_in_first(json, list, outer, key) is None,
        member_in(json, list) == Some(l) && item_in(l, 0) == Some(i) && member_in(i, outer) == Some(m)
            && (member_in(m, key) is None || string_in(member_in(m, key).unwrap()) is None)
            ==> text_in_first(json, list, outer, key) is None,
{
}

}
