//! JSON text: reading a document from text and writing it back, both done by
//! `serde_json`.
//!
//! The parser and the printer are named, not restated: `parsed_json` is what
//! `serde_json::from_str` makes of a text and `json_text` is what
//! `Value::to_string` writes for a document. The logic around them works on
//! `JsonValue` and is verified.

use vstd::prelude::*;
use crate::json::{Json, JsonNumber, JsonValue};

verus! {

#[verifier::external_type_specification]
#[verifier::external_body]
pub struct ExSerdeValue(serde_json::Value);

#[verifier::external_type_specification]
#[verifier::external_body]
pub struct ExSerdeNumber(serde_json::Number);

/// What `serde_json::from_str::<Value>` makes of `text`: the document, or
/// the text of the error it reports.
pub uninterp spec fn parsed_json(text: Seq<char>) -> Result<Json, Seq<char>>;

/// The text `serde_json::Value::to_string` writes for the document `j`.
pub uninterp spec fn json_text(j: Json) -> Seq<char>;

/// The view of a parse outcome.
pub open spec fn parse_view(r: Result<JsonValue, String>) -> Result<Json, Seq<char>> {
    match r {
        Ok(v) => Ok(v@),
        Err(e) => Err(e@),
    }
}

/// A `serde_json` number as the library's number: the parser's own three
/// kinds, with a double kept as the text `Number::to_string` writes for it.
#[verifier::external_body]
fn number_from_serde(n: &serde_json::Number) -> (r: JsonNumber) {
    match (n.as_u64(), n.as_i64()) {
        (Some(u), _) => JsonNumber::PosInt(u),
        (None, Some(i)) => JsonNumber::NegInt(i),
        (None, None) => JsonNumber::Float(n.to_string()),
    }
}

/// A `serde_json` value as the library's value, member for member.
#[verifier::external_body]
fn value_from_serde(v: &serde_json::Value) -> (r: JsonValue) {
    match v {
        serde_json::Value::Null => JsonValue::Null,
        serde_json::Value::Bool(b) => JsonValue::Bool(*b),
        serde_json::Value::Number(n) => JsonValue::Number(number_from_serde(n)),
        serde_json::Value::String(s) => JsonValue::String(s.clone()),
        serde_json::Value::Array(a) => JsonValue::Array(a.iter().map(value_from_serde).collect()),
        serde_json::Value::Object(m) => JsonValue::Object(
            m.iter().map(|(k, x)| (k.clone(), value_from_serde(x))).collect(),
        ),
    }
}

/// The library's number as a `serde_json` value; a double is read back from
/// its text with `str::parse` (`Number::from_f64` gives no number for a
/// non-finite double, which becomes `null`).
#[verifier::external_body]
fn number_to_serde(n: &JsonNumber) -> (r: serde_json::Value) {
    match n {
        JsonNumber::PosInt(u) => serde_json::Value::from(*u),
        JsonNumber::NegInt(i) => serde_json::Value::from(*i),
        JsonNumber::Float(t) => serde_json::Number::from_f64(t.parse().unwrap_or_default())
            .map_or(serde_json::Value::Null, serde_json::Value::Number),
    }
}

/// The library's value as a `serde_json` value, member for member.
#[verifier::external_body]
fn value_to_serde(j: &JsonValue) -> (r: serde_json::Value) {
    match j {
        JsonValue::Null => serde_json::Value::Null,
        JsonValue::Bool(b) => serde_json::Value::Bool(*b),
        JsonValue::Number(n) => number_to_serde(n),
        JsonValue::String(s) => serde_json::Value::String(s.clone()),
        JsonValue::Array(a) => serde_json::Value::Array(a.iter().map(value_to_serde).collect()),
        JsonValue::Object(e) => serde_json::Value::Object(
            e.iter().map(|(k, x)| (k.clone(), value_to_serde(x))).collect(),
        ),
    }
}

/// `serde_json::from_str::<Value>`, with the error written out by its
/// `Display`. The contract names the outcome; it does not restate the JSON
/// grammar.
#[verifier::external_body]
pub(crate) fn parse_json(text: &str) -> (r: Result<JsonValue, String>)
    ensures
        parse_view(r) == parsed_json(text@),
{
    match serde_json::from_str::<serde_json::Value>(text) {
        Ok(v) => Ok(value_from_serde(&v)),
        Err(e) => Err(e.to_string()),
    }
}

/// `serde_json::Value::to_string`: the compact text of the document. The
/// contract names the text; it does not restate the printer.
#[verifier::external_body]
pub(crate) fn json_to_string(j: &JsonValue) -> (r: String)
    ensures
        r@ == json_text(j@),
{
    value_to_serde(j).to_string()
}

} // verus!
