//! JSON values, carried through as `serde_json` holds them.

use vstd::prelude::*;
use vstd::utf8::*;
use crate::text::option_text;

verus! {

#[verifier::external_type_specification]
#[verifier::external_body]
pub struct ExJsonValue(serde_json::Value);

#[verifier::external_type_specification]
#[verifier::external_body]
#[verifier::reject_recursive_types(K)]
#[verifier::reject_recursive_types(V)]
pub struct ExJsonMap<K, V>(serde_json::Map<K, V>);

/// The compact serialisation of a value.
pub uninterp spec fn json_bytes(value: serde_json::Value) -> Seq<u8>;

/// The elements of an array, each by its text where it is a string; nothing for what is no array.
pub uninterp spec fn json_strings(value: serde_json::Value) -> Option<Seq<Option<Seq<char>>>>;

/// What an object holds under each of its keys.
pub uninterp spec fn json_entries(
    object: serde_json::Map<String, serde_json::Value>,
) -> Map<Seq<char>, serde_json::Value>;

/// The value that a text denotes, or what `serde_json` says against it.
pub uninterp spec fn json_parse(text: Seq<char>) -> Result<serde_json::Value, Seq<char>>;

/// `serde_json::to_vec`, whose bytes are a function of the value.
#[verifier::external_body]
pub(crate) fn to_json_bytes(value: &serde_json::Value) -> (r: Vec<u8>)
    ensures
        r@ == json_bytes(*value),
{
    serde_json::to_vec(value).unwrap_or_default()
}

/// `serde_json::to_string`: the same serialisation, as a text.
#[verifier::external_body]
pub(crate) fn to_json_string(value: &serde_json::Value) -> (r: String)
    ensures
        encode_utf8(r@) == json_bytes(*value),
{
    serde_json::to_string(value).unwrap_or_default()
}

/// `serde_json::Map::get`.
#[verifier::external_body]
pub(crate) fn entry<'a>(
    object: &'a serde_json::Map<String, serde_json::Value>,
    key: &str,
) -> (r: Option<&'a serde_json::Value>)
    ensures
        r is Some <==> json_entries(*object).contains_key(key@),
        r matches Some(value) ==> *value == json_entries(*object)[key@],
{
    object.get(key)
}

/// `serde_json::Map::insert`: the key holds the value, in place of any that it held.
#[verifier::external_body]
pub(crate) fn set_entry(
    object: &mut serde_json::Map<String, serde_json::Value>,
    key: &str,
    value: serde_json::Value,
)
    ensures
        json_entries(*final(object)) == json_entries(*old(object)).insert(key@, value),
{
    object.insert(key.to_string(), value);
}

/// `serde_json::Map::new`: an object without keys.
#[verifier::external_body]
pub(crate) fn empty_object() -> (r: serde_json::Map<String, serde_json::Value>)
    ensures
        json_entries(r).dom() == Set::<Seq<char>>::empty(),
{
    serde_json::Map::new()
}

/// The texts of a list, of which some may be missing.
pub open spec fn option_texts(list: Seq<Option<String>>) -> Seq<Option<Seq<char>>> {
    list.map_values(|s: Option<String>| option_text(s))
}

/// `serde_json::Value::as_array`, and `as_str` on each element.
#[verifier::external_body]
pub(crate) fn as_strings(value: &serde_json::Value) -> (r: Option<Vec<Option<String>>>)
    ensures
        match r {
            Some(list) => json_strings(*value) == Some(option_texts(list@)),
            None => json_strings(*value) is None,
        },
{
    let items = value.as_array()?;
    Some(items.iter().map(|v| v.as_str().map(|s| s.to_string())).collect())
}

/// `serde_json::Value::from` on a list of strings: an array of these strings, in order.
#[verifier::external_body]
pub(crate) fn string_array(list: Vec<String>) -> (r: serde_json::Value)
    ensures
        json_strings(r) == Some(list@.map_values(|s: String| Some(s@))),
{
    serde_json::Value::from(list)
}

/// `serde_json::from_str` into a value: a function of the text, the error by its `Display`.
#[verifier::external_body]
pub(crate) fn parse_json(text: &str) -> (r: Result<serde_json::Value, String>)
    ensures
        match r {
            Ok(value) => json_parse(text@) == Ok::<serde_json::Value, Seq<char>>(value),
            Err(e) => json_parse(text@) == Err::<serde_json::Value, Seq<char>>(e@),
        },
{
    serde_json::from_str(text).map_err(|e: serde_json::Error| e.to_string())
}

/// `serde_json::Value::default`: null, which serialises as those four letters.
#[verifier::external_body]
pub(crate) fn null() -> (r: serde_json::Value)
    ensures
        json_bytes(r) == seq![110u8, 117u8, 108u8, 108u8],
{
    serde_json::Value::default()
}

} // verus!
