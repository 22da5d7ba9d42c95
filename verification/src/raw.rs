//! The boundary to the JSON text parser of the `serde_json` crate.
//!
//! Everything the rest of the crate knows about raw response text enters
//! through [`parse_json`]: the name [`json_doc`] stands for the document a
//! string denotes, and every contract downstream speaks of that name.

use vstd::prelude::*;

use crate::json::JsonMember;
use crate::json::JsonVal;
use crate::json::JsonValue;
use crate::parser::ParseError;

verus! {

#[verifier::external_type_specification]
#[verifier::external_body]
pub struct ExSerdeJsonError(serde_json::Error);

#[verifier::external_type_specification]
#[verifier::external_body]
pub struct ExSerdeJsonValue(serde_json::Value);

/// The JSON document a string denotes: `None` when the string is not one
/// well-formed JSON document, otherwise the document, with each number kept
/// as literal text and each object's members in the order the text parser
/// hands them out.
pub uninterp spec fn json_doc(s: Seq<char>) -> Option<JsonVal>;

/// Maps one value of the JSON text parser one-for-one onto [`JsonValue`]:
/// each variant to its counterpart, a number to its text. Only
/// [`json_from_str`] calls this; what the pair returns is named by
/// [`json_doc`] there.
#[verifier::external_body]
fn value_of(v: serde_json::Value) -> JsonValue {
    match v {
        serde_json::Value::Null => JsonValue::Null,
        serde_json::Value::Bool(b) => JsonValue::Bool(b),
        serde_json::Value::Number(n) => JsonValue::Num(n.to_string()),
        serde_json::Value::String(s) => JsonValue::Str(s),
        serde_json::Value::Array(a) => JsonValue::Arr(a.into_iter().map(value_of).collect()),
        serde_json::Value::Object(o) => JsonValue::Obj(
            o.into_iter().map(|(k, w)| JsonMember { key: k, value: value_of(w) }).collect(),
        ),
    }
}

/// Relies on `serde_json::from_str::<serde_json::Value>`: whether a string
/// is one well-formed JSON document, and which document it denotes, depend
/// on the string alone; [`value_of`] converts the parsed value.
#[verifier::external_body]
fn json_from_str(raw: &str) -> (r: Result<JsonValue, serde_json::Error>)
    ensures
        match r {
            Ok(v) => json_doc(raw@) == Some(v@),
            Err(_) => json_doc(raw@) is None,
        },
{
    match serde_json::from_str::<serde_json::Value>(raw) {
        Ok(v) => Ok(value_of(v)),
        Err(e) => Err(e),
    }
}

/// Parses a string as one JSON document; fails with an invalid-input error
/// exactly when the string is not well-formed JSON.
pub fn parse_json(raw: &str) -> (r: Result<JsonValue, ParseError>)
    ensures
        match r {
            Ok(v) => json_doc(raw@) == Some(v@),
            Err(e) => e@ is InvalidJson && json_doc(raw@) is None,
        },
{
    match json_from_str(raw) {
        Ok(v) => Ok(v),
        Err(e) => Err(ParseError::InvalidJson(e)),
    }
}

} // verus!
