//! JSON values. Those that come as text are held as their JSON text; those that come as values
//! are held as `serde_json` has them, and seen by the JSON texts of their members.
use crate::metadata::map_of;
use crate::text::{opt_view, views};
use vstd::prelude::*;

verus! {

/// The member `key` of the JSON object `json`, as JSON text; none where `json` is not an object
/// with that member.
pub uninterp spec fn json_member_of(json: Seq<char>, key: Seq<char>) -> Option<Seq<char>>;

/// The text of the JSON string `json`; none where `json` is not a string.
pub uninterp spec fn json_str_of(json: Seq<char>) -> Option<Seq<char>>;

/// The number `json`; none where `json` is not a number between 0 and 2^64 - 1 that is written
/// without a fraction and without an exponent.
pub uninterp spec fn json_u64_of(json: Seq<char>) -> Option<u64>;

/// The items of the JSON array `json`, as JSON texts; none where `json` is not an array.
pub uninterp spec fn json_items_of(json: Seq<char>) -> Option<Seq<Seq<char>>>;

/// What is wrong with `json` as JSON text; none where nothing is.
pub uninterp spec fn json_error_of(json: Seq<char>) -> Option<Seq<char>>;

/// The entries of a JSON object whose members are all strings; for any other text, what is wrong
/// with it.
pub uninterp spec fn json_strings_of(json: Seq<char>) -> Result<
    Map<Seq<char>, Seq<char>>,
    Seq<char>,
>;

/// The items of the array at a JSON pointer in `json`, each as the bits of the double-precision
/// number that it stands for, and none for an item that is no number; none where no array stands
/// there.
pub uninterp spec fn json_numbers_of(json: Seq<char>, pointer: Seq<char>) -> Option<
    Seq<Option<u64>>,
>;

/// The view of an optional list of optional numbers.
pub open spec fn opt_numbers(v: Option<Vec<Option<u64>>>) -> Option<Seq<Option<u64>>> {
    match v {
        Some(x) => Some(x@),
        None => None,
    }
}

/// The views of optional strings.
pub open spec fn opt_views(v: Option<Vec<String>>) -> Option<Seq<Seq<char>>> {
    match v {
        Some(x) => Some(views(x@)),
        None => None,
    }
}

/// The map of a list of entries, or the text of an error.
pub open spec fn map_result(v: Result<Vec<(String, String)>, String>) -> Result<
    Map<Seq<char>, Seq<char>>,
    Seq<char>,
> {
    match v {
        Ok(x) => Ok(map_of(x@)),
        Err(e) => Err(e@),
    }
}

/// `serde_json::Value::get` with a string as the index, on the value that the text parses to.
#[verifier::external_body]
pub(crate) fn json_member(json: &str, key: &str) -> (res: Option<String>)
    ensures
        opt_view(res) == json_member_of(json@, key@),
{
    let value = serde_json::from_str::<serde_json::Value>(json).ok()?;
    value.get(key).map(|member| member.to_string())
}

/// `serde_json::Value::as_str` on the value that the text parses to.
#[verifier::external_body]
pub(crate) fn json_str(json: &str) -> (res: Option<String>)
    ensures
        opt_view(res) == json_str_of(json@),
{
    let value = serde_json::from_str::<serde_json::Value>(json).ok()?;
    value.as_str().map(|s| s.to_string())
}

/// `serde_json::Value::as_u64` on the value that the text parses to.
#[verifier::external_body]
pub(crate) fn json_u64(json: &str) -> (res: Option<u64>)
    ensures
        res == json_u64_of(json@),
{
    let value = serde_json::from_str::<serde_json::Value>(json).ok()?;
    value.as_u64()
}

/// `serde_json::Value::as_array` on the value that the text parses to.
#[verifier::external_body]
pub(crate) fn json_items(json: &str) -> (res: Option<Vec<String>>)
    ensures
        opt_views(res) == json_items_of(json@),
{
    let value = serde_json::from_str::<serde_json::Value>(json).ok()?;
    value.as_array().map(|items| items.iter().map(|item| item.to_string()).collect())
}

/// `serde_json::Value::pointer` on the value that the text parses to, and
/// `serde_json::Value::as_f64` on each item of the array that stands there.
#[verifier::external_body]
pub(crate) fn json_numbers(json: &str, pointer: &str) -> (res: Option<Vec<Option<u64>>>)
    ensures
        opt_numbers(res) == json_numbers_of(json@, pointer@),
{
    let value = serde_json::from_str::<serde_json::Value>(json).ok()?;
    let items = value.pointer(pointer)?.as_array()?;
    Some(items.iter().map(|item| item.as_f64().map(|n| n.to_bits())).collect())
}

/// `serde_json::from_str` into a value: the text of its error.
#[verifier::external_body]
pub(crate) fn json_error(json: &str) -> (res: Option<String>)
    ensures
        opt_view(res) == json_error_of(json@),
{
    serde_json::from_str::<serde_json::Value>(json).err().map(|e| e.to_string())
}

/// `serde_json::to_string` on a hash map from strings to strings. The order of the members is
/// not fixed; reading the text back gives the same map. Writing strings to memory never fails.
#[verifier::external_body]
pub(crate) fn strings_to_json(entries: &Vec<(String, String)>) -> (res: String)
    ensures
        (json_strings_of(res@) == Ok::<_, Seq<char>>(map_of(entries@))),
{
    let map: std::collections::HashMap<&String, &String> = entries.iter().map(|e| (&e.0, &e.1)).collect();
    serde_json::to_string(&map).unwrap()
}

/// `serde_json::from_str` into a hash map from strings to strings, with the text of its error.
#[verifier::external_body]
pub(crate) fn strings_from_json(json: &str) -> (res: Result<Vec<(String, String)>, String>)
    ensures
        map_result(res) == json_strings_of(json@),
{
    match serde_json::from_str::<std::collections::HashMap<String, String>>(json) {
        Ok(map) => Ok(map.into_iter().collect()),
        Err(e) => Err(e.to_string()),
    }
}

// ---------------------------------------------------------------------------------------------
// Values
// ---------------------------------------------------------------------------------------------
/// `serde_json::Value`: any JSON value, however deep.
#[verifier::external_type_specification]
#[verifier::external_body]
pub struct ExValue(serde_json::Value);

/// `serde_json::Map`: the members of a JSON object.
#[verifier::external_type_specification]
#[verifier::external_body]
#[verifier::reject_recursive_types(K)]
#[verifier::reject_recursive_types(V)]
pub struct ExObject<K, V>(serde_json::Map<K, V>);

/// The members of a JSON value, each by its name with its JSON text. A value that is no object
/// has none.
pub uninterp spec fn value_members(value: serde_json::Value) -> Map<Seq<char>, Seq<char>>;

/// The members of a JSON object, in order, each by its name with its JSON text.
pub uninterp spec fn object_members(
    object: serde_json::Map<String, serde_json::Value>,
) -> Seq<(Seq<char>, Seq<char>)>;

/// The JSON object with the given members, laid out over several lines.
pub uninterp spec fn object_pretty_of(members: Seq<(Seq<char>, Seq<char>)>) -> Seq<char>;

/// The JSON text of the member `key` of a value; none where it has no such member.
pub open spec fn member_in(value: serde_json::Value, key: Seq<char>) -> Option<Seq<char>> {
    if value_members(value).dom().contains(key) {
        Some(value_members(value)[key])
    } else {
        None
    }
}

/// `serde_json::Value::get` with a string as the index, and the JSON text of what it gives.
#[verifier::external_body]
pub(crate) fn value_member(value: &serde_json::Value, key: &str) -> (res: Option<String>)
    ensures
        match res {
            Some(member) => value_members(*value).dom().contains(key@) && member@ == value_members(
                *value,
            )[key@],
            None => !value_members(*value).dom().contains(key@),
        },
{
    value.get(key).map(|member| member.to_string())
}

/// `serde_json::to_string_pretty` on an object. It does not fail: the names are strings, and a
/// value of `serde_json` holds nothing that JSON cannot.
#[verifier::external_body]
pub(crate) fn object_pretty(object: &serde_json::Map<String, serde_json::Value>) -> (res: Option<
    String,
>)
    ensures
        opt_view(res) == Some(object_pretty_of(object_members(*object))),
{
    serde_json::to_string_pretty(object).ok()
}

} // verus!
