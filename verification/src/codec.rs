use vstd::prelude::*;

use crate::json::{JsonValue, SpecJson};

verus! {

/// The bridge to `serde_json`: parsing raw bytes or text into the
/// library's JSON model. What a parse returns is a function of the input
/// alone, so it carries a name (`spec_parse_json`, `spec_parse_json_text`)
/// that the contracts downstream build on.

#[verifier::external_type_specification]
#[verifier::external_body]
pub struct ExSerdeValue(serde_json::Value);

/// The library's reading of a `serde_json` value: variant for variant,
/// numbers by their canonical rendering, object entries in the map's
/// iteration order. A function of the value alone.
pub uninterp spec fn spec_value_model(v: serde_json::Value) -> SpecJson;

/// The JSON document held in a byte string, if the bytes parse: a
/// function of the bytes alone.
pub uninterp spec fn spec_parse_json(bytes: Seq<u8>) -> Option<SpecJson>;

/// The JSON document held in a text, if the text parses: a function of
/// the text alone.
pub uninterp spec fn spec_parse_json_text(s: Seq<char>) -> Option<SpecJson>;

/// Relies on `serde_json::from_slice`: `Some` exactly on well-formed
/// JSON, and the parsed value models the document the bytes hold.
#[verifier::external_body]
pub(crate) fn parse_serde_bytes(bytes: &[u8]) -> (r: Option<serde_json::Value>)
    ensures
        (r is Some) == (spec_parse_json(bytes@) is Some),
        r matches Some(v) ==> Some(spec_value_model(v)) == spec_parse_json(bytes@),
{
    serde_json::from_slice(bytes).ok()
}

/// Relies on `serde_json::from_str`: `Some` exactly on well-formed JSON,
/// and the parsed value models the document the text holds.
#[verifier::external_body]
pub(crate) fn parse_serde_str(s: &str) -> (r: Option<serde_json::Value>)
    ensures
        (r is Some) == (spec_parse_json_text(s@) is Some),
        r matches Some(v) ==> Some(spec_value_model(v)) == spec_parse_json_text(s@),
{
    serde_json::from_str(s).ok()
}

/// Relies on the shape of `serde_json::Value`: each variant moves to the
/// library's corresponding node — a number becomes its canonical text
/// (`Number`'s `Display`), object entries come in the map's iteration
/// order — which is exactly the model `spec_value_model` names.
#[verifier::external_body]
pub(crate) fn from_serde(v: serde_json::Value) -> (r: JsonValue)
    ensures
        r@ == spec_value_model(v),
{
    match v {
        serde_json::Value::Null => JsonValue::Null,
        serde_json::Value::Bool(b) => JsonValue::Bool(b),
        serde_json::Value::Number(n) => JsonValue::Num(n.to_string()),
        serde_json::Value::String(s) => JsonValue::Str(s),
        serde_json::Value::Array(a) => JsonValue::Arr(a.into_iter().map(from_serde).collect()),
        serde_json::Value::Object(m) => JsonValue::Obj(
            m.into_iter().map(|(k, x)| (k, from_serde(x))).collect(),
        ),
    }
}

/// Parses raw webhook bytes into the library's JSON model.
pub fn parse_json_bytes(bytes: &[u8]) -> (r: Option<JsonValue>)
    ensures
        (r is Some) == (spec_parse_json(bytes@) is Some),
        r matches Some(j) ==> Some(j@) == spec_parse_json(bytes@),
{
    match parse_serde_bytes(bytes) {
        Some(v) => Some(from_serde(v)),
        None => None,
    }
}

/// Parses text into the library's JSON model.
pub fn parse_json_str(s: &str) -> (r: Option<JsonValue>)
    ensures
        (r is Some) == (spec_parse_json_text(s@) is Some),
        r matches Some(j) ==> Some(j@) == spec_parse_json_text(s@),
{
    match parse_serde_str(s) {
        Some(v) => Some(from_serde(v)),
        None => None,
    }
}

/// The canonical text of a JSON number, if the text parses as one: a
/// function of the text alone.
pub uninterp spec fn spec_number_text(s: Seq<char>) -> Option<Seq<char>>;

/// Relies on `serde_json::Number`'s `FromStr` and `Display`: parses a JSON
/// number (integer or float) and re-renders it canonically.
#[verifier::external_body]
pub(crate) fn parse_number_text(s: &str) -> (r: Option<String>)
    ensures
        (r is Some) == (spec_number_text(s@) is Some),
        r matches Some(t) ==> Some(t@) == spec_number_text(s@),
{
    match s.parse::<serde_json::Number>() {
        Ok(n) => Some(n.to_string()),
        Err(_) => None,
    }
}

} // verus!
