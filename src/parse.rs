//! The outside JSON parser, and the adapter from its values to [`ParsedValue`].

use vstd::prelude::*;
use crate::value::ParsedValue;

verus! {

#[verifier::external_type_specification]
#[verifier::external_body]
pub struct ExJsonValue(serde_json::Value);

#[verifier::external_type_specification]
#[verifier::external_body]
pub struct ExJsonError(serde_json::Error);

/// The document that the parser reads from a byte string, if it accepts it: it
/// accepts well-formed JSON nested no deeper than its recursion limit of 128.
pub uninterp spec fn json_document(bytes: Seq<u8>) -> Option<ParsedValue>;

/// Moves a value of the parser into the library's own representation, variant
/// for variant, keeping array and member order. Relies on
/// `serde_json::Number::as_f64` for numbers, whose bit pattern is kept; without
/// the `arbitrary_precision` feature it always returns a value.
#[verifier::external_body]
fn adopt(v: serde_json::Value) -> ParsedValue {
    match v {
        serde_json::Value::Null => ParsedValue::Null,
        serde_json::Value::Bool(b) => ParsedValue::Bool(b),
        serde_json::Value::Number(n) => ParsedValue::Number(n.as_f64().map_or(0, |x| x.to_bits())),
        serde_json::Value::String(s) => ParsedValue::String(s),
        serde_json::Value::Array(a) => ParsedValue::Array(a.into_iter().map(adopt).collect()),
        serde_json::Value::Object(o) => ParsedValue::Object(o.into_iter().map(|(k, x)| (k, adopt(x))).collect()),
    }
}

/// Relies on `serde_json::from_slice` into `serde_json::Value`: it succeeds on
/// well-formed JSON nested at most 128 levels deep and fails otherwise, and the
/// result depends on the bytes alone. Its
/// objects are maps (insertion-ordered under the `preserve_order` feature), so
/// member names are distinct.
#[verifier::external_body]
pub(crate) fn parse_document(data: &[u8]) -> (r: Result<ParsedValue, serde_json::Error>)
    ensures
        r matches Ok(v) ==> json_document(data@) == Some(v) && v.wf(),
        r is Err ==> json_document(data@) is None,
{
    serde_json::from_slice::<serde_json::Value>(data).map(adopt)
}

/// Relies on `serde_json::Error`'s `Display`: the parser's diagnostic.
#[verifier::external_body]
pub(crate) fn parse_error_text(e: &serde_json::Error) -> String {
    e.to_string()
}

} // verus!
