//! The JSON documents this library reads, as `serde_json` parses them.
//!
//! A parsed document stays a `serde_json::Value`. Contracts speak of it through
//! [`JsonModel`], the mathematical tree that the value holds, and the few
//! accessors the decoder needs are specified against that tree.

use serde_json::Value;
use vstd::prelude::*;

verus! {

/// The content of a JSON value.
pub enum JsonModel {
    Null,
    Bool(bool),
    /// A number. `unsigned` is its value when the number is written as a
    /// non-negative integer that fits in 64 bits, and `None` for every other
    /// number (negative, fractional, or too large).
    Number { unsigned: Option<u64> },
    Text(Seq<char>),
    Array(Seq<JsonModel>),
    Object(Map<Seq<char>, JsonModel>),
}

#[verifier::external_type_specification]
#[verifier::external_body]
pub struct ExValue(serde_json::Value);

/// The tree that a parsed value holds.
pub uninterp spec fn json_model(v: serde_json::Value) -> JsonModel;

/// The tree that a text denotes when it is a well-formed JSON document that the
/// parser accepts, and `None` when it is not.
pub uninterp spec fn document_model(text: Seq<char>) -> Option<JsonModel>;

/// The trees held by a sequence of values, in order.
pub open spec fn models(items: Seq<Value>) -> Seq<JsonModel> {
    items.map_values(|v: Value| json_model(v))
}

/// Parses a whole document with `serde_json::from_str`.
///
/// Trusted: the value returned holds the tree that the text denotes, and the
/// call fails exactly on texts that denote none. Nothing is claimed about the
/// wording of the failure message, which is the parser's own.
#[verifier::external_body]
pub(crate) fn parse_document(text: &str) -> (r: Result<Value, String>)
    ensures
        match r {
            Ok(v) => document_model(text@) == Some(json_model(v)),
            Err(_) => document_model(text@) is None,
        },
{
    serde_json::from_str::<Value>(text).map_err(|e| e.to_string())
}

/// Looks a key up with `Value::get`.
///
/// Trusted: the result is the member stored under `key` when the value is an
/// object that has one, and `None` for an object without that key and for
/// every value that is not an object.
#[verifier::external_body]
pub(crate) fn member<'a>(v: &'a Value, key: &str) -> (r: Option<&'a Value>)
    ensures
        match r {
            Some(found) => json_model(*v) matches JsonModel::Object(fields)
                && fields.contains_key(key@) && fields[key@] == json_model(*found),
            None => !(json_model(*v) matches JsonModel::Object(fields) && fields.contains_key(
                key@,
            )),
        },
{
    v.get(key)
}

/// `Value::is_object`: true exactly for objects.
pub assume_specification[ Value::is_object ](v: &Value) -> (r: bool)
    ensures
        r == (json_model(*v) is Object),
;

/// `Value::is_null`: true exactly for `null`.
pub assume_specification[ Value::is_null ](v: &Value) -> (r: bool)
    ensures
        r == (json_model(*v) is Null),
;

/// `Value::as_array`: the elements of an array, and `None` for anything else.
pub assume_specification<'a>[ Value::as_array ](v: &'a Value) -> (r: Option<&'a Vec<Value>>)
    ensures
        match r {
            Some(items) => json_model(*v) == JsonModel::Array(models(items@)),
            None => !(json_model(*v) is Array),
        },
;

/// `Value::as_str`: the characters of a string, and `None` for anything else.
pub assume_specification<'a>[ Value::as_str ](v: &'a Value) -> (r: Option<&'a str>)
    ensures
        match r {
            Some(s) => json_model(*v) == JsonModel::Text(s@),
            None => !(json_model(*v) is Text),
        },
;

/// `Value::as_bool`: the truth value of a boolean, and `None` for anything else.
pub assume_specification[ Value::as_bool ](v: &Value) -> (r: Option<bool>)
    ensures
        match r {
            Some(b) => json_model(*v) == JsonModel::Bool(b),
            None => !(json_model(*v) is Bool),
        },
;

/// `Value::as_u64`: the value of a number written as a non-negative integer
/// that fits in 64 bits, and `None` for every other number and for anything
/// that is not a number.
pub assume_specification[ Value::as_u64 ](v: &Value) -> (r: Option<u64>)
    ensures
        r == match json_model(*v) {
            JsonModel::Number { unsigned } => unsigned,
            _ => None,
        },
;

} // verus!
