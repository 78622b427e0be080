//! Reading a JSON text into the library's tree, through serde_json.

use vstd::prelude::*;
use crate::json::Json;

verus! {

#[verifier::external_type_specification]
#[verifier::external_body]
pub struct ExValue(serde_json::Value);

/// The tree that serde_json reads from a text, or nothing where the text is
/// not a JSON document.
pub uninterp spec fn parsed(text: Seq<char>) -> Option<Json>;

/// Relies on serde_json::from_str, read as a serde_json::Value: it parses the
/// whole text or fails, and a text with no value in it fails.
#[verifier::external_body]
pub fn parse_json(text: &str) -> (r: Option<Json>)
    ensures
        r == parsed(text@),
        text@.len() == 0 ==> r is None,
{
    serde_json::from_str::<serde_json::Value>(text).ok().map(from_value)
}

/// Moves a serde_json::Value into the library's tree, variant by variant; a
/// number keeps the text that serde_json's Number displays.
#[verifier::external_body]
fn from_value(v: serde_json::Value) -> Json {
    match v {
        serde_json::Value::Null => Json::Null,
        serde_json::Value::Bool(b) => Json::Bool(b),
        serde_json::Value::Number(n) => Json::Number(n.to_string()),
        serde_json::Value::String(s) => Json::Str(s),
        serde_json::Value::Array(a) => Json::Array(a.into_iter().map(from_value).collect()),
        serde_json::Value::Object(m) => Json::Object(
            m.into_iter().map(|(k, x)| (k, from_value(x))).collect(),
        ),
    }
}

} // verus!
