//! JSON documents as `serde_json` holds them, seen through a mathematical
//! model. Everything in this file is believed of `serde_json`, not proved.

use vstd::prelude::*;

verus! {

/// A parsed JSON document of `serde_json`. Its inside is not visible here:
/// `json_model` says what it holds.
#[verifier::external_type_specification]
#[verifier::external_body]
pub struct ExValue(serde_json::Value);

/// The failure that `serde_json` reports for a text that is not JSON.
#[verifier::external_type_specification]
#[verifier::external_body]
pub struct ExJsonError(serde_json::Error);

/// What a JSON document is. Of a number only this is kept: whether it is a
/// non-negative integer that fits 64 bits, and then which.
pub enum JsonModel {
    Null,
    Bool(bool),
    Number(Option<u64>),
    Text(Seq<char>),
    Array(Seq<JsonModel>),
    Object(Map<Seq<char>, JsonModel>),
}

/// The document that a `serde_json::Value` holds.
pub uninterp spec fn json_model(value: serde_json::Value) -> JsonModel;

/// The document that `serde_json::from_str` reads from a text, or `None`
/// where it reports an error.
pub uninterp spec fn json_parse(text: Seq<char>) -> Option<JsonModel>;

/// The member of an object under a key, if the document is an object that
/// has one.
pub open spec fn member(doc: JsonModel, key: Seq<char>) -> Option<JsonModel> {
    match doc {
        JsonModel::Object(fields) => if fields.contains_key(key) {
            Some(fields[key])
        } else {
            None
        },
        _ => None,
    }
}

/// Calls `serde_json::from_str` for a `Value`. The result is the named
/// reading of the text: a document on success, an error where there is none.
#[verifier::external_body]
pub(crate) fn parse_value(text: &str) -> (r: Result<serde_json::Value, serde_json::Error>)
    ensures
        match r {
            Ok(value) => json_parse(text@) == Some(json_model(value)),
            Err(_) => json_parse(text@) is None,
        },
{
    serde_json::from_str::<serde_json::Value>(text)
}

/// Calls `Value::as_array`: the elements of an array, in order, and `None`
/// for any other document.
#[verifier::external_body]
pub(crate) fn value_as_array(value: &serde_json::Value) -> (r: Option<&Vec<serde_json::Value>>)
    ensures
        r is Some <==> json_model(*value) is Array,
        r matches Some(items) ==> {
            &&& items@.len() == json_model(*value)->Array_0.len()
            &&& forall|i: int|
                0 <= i < items@.len() ==> #[trigger] json_model(items@[i]) == json_model(
                    *value,
                )->Array_0[i]
        },
{
    value.as_array()
}

/// Calls `Value::get` with a string key: the member under that key where
/// the document is an object that has it, else `None`.
#[verifier::external_body]
pub(crate) fn value_get<'a>(value: &'a serde_json::Value, key: &str) -> (r: Option<
    &'a serde_json::Value,
>)
    ensures
        match r {
            Some(found) => member(json_model(*value), key@) == Some(json_model(*found)),
            None => member(json_model(*value), key@) is None,
        },
{
    value.get(key)
}

/// Calls `Value::is_null`.
#[verifier::external_body]
pub(crate) fn value_is_null(value: &serde_json::Value) -> (r: bool)
    ensures
        r == (json_model(*value) is Null),
{
    value.is_null()
}

/// Calls `Value::as_u64`: the number where the document is a non-negative
/// integer that fits 64 bits, else `None`.
#[verifier::external_body]
pub(crate) fn value_as_u64(value: &serde_json::Value) -> (r: Option<u64>)
    ensures
        r == match json_model(*value) {
            JsonModel::Number(n) => n,
            _ => None,
        },
{
    value.as_u64()
}

/// Calls `Value::as_str` and copies the text: the string where the document
/// is one, else `None`.
#[verifier::external_body]
pub(crate) fn value_as_string(value: &serde_json::Value) -> (r: Option<String>)
    ensures
        match r {
            Some(text) => json_model(*value) == JsonModel::Text(text@),
            None => !(json_model(*value) is Text),
        },
{
    value.as_str().map(String::from)
}

} // verus!
