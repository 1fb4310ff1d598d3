//! The structured value that every input format is decoded into.

use vstd::prelude::*;
use crate::dictionary::Dictionary;

verus! {

/// A JSON-like value. A number is held as its decimal text.
#[derive(Debug, PartialEq, Eq)]
pub enum StructuredValue {
    Null,
    Bool(bool),
    Number(String),
    Text(String),
    Array(Vec<StructuredValue>),
    Object(Dictionary<StructuredValue>),
}

impl StructuredValue {
    /// Whether this is the text `s`.
    pub open spec fn is_text(self, s: Seq<char>) -> bool {
        self matches StructuredValue::Text(t) && t@ == s
    }
}

#[verifier::external_type_specification]
#[verifier::external_body]
pub struct ExJsonValue(serde_json::Value);

/// The value that a `serde_json::Value` holds.
pub uninterp spec fn json_value(json: serde_json::Value) -> StructuredValue;

/// The document that `serde_json::from_slice` reads from `bytes`, where it
/// accepts them.
pub uninterp spec fn json_document(bytes: Seq<u8>) -> Option<StructuredValue>;

/// Calls `serde_json::from_slice` for a `serde_json::Value`. The contract
/// names what was read.
#[verifier::external_body]
fn read_document(bytes: &[u8]) -> (json: Option<serde_json::Value>)
    ensures
        match json {
            Some(j) => json_document(bytes@) == Some(json_value(j)),
            None => json_document(bytes@) is None,
        },
{
    serde_json::from_slice::<serde_json::Value>(bytes).ok()
}

/// Turns a `serde_json::Value` into a [`StructuredValue`], variant by variant; a
/// number becomes what `Number::to_string` prints, an object keeps its
/// members in the order in which `serde_json` walks them.
#[verifier::external_body]
fn from_json(json: serde_json::Value) -> (value: StructuredValue)
    ensures
        value == json_value(json),
{
    match json {
        serde_json::Value::Null => StructuredValue::Null,
        serde_json::Value::Bool(b) => StructuredValue::Bool(b),
        serde_json::Value::Number(n) => StructuredValue::Number(n.to_string()),
        serde_json::Value::String(s) => StructuredValue::Text(s),
        serde_json::Value::Array(items) => StructuredValue::Array(items.into_iter().map(from_json).collect()),
        serde_json::Value::Object(members) => StructuredValue::Object(
            members.into_iter().fold(Dictionary::new(), |d, (k, v)| d.with(k, from_json(v))),
        ),
    }
}

/// Reads one JSON document from `bytes`.
pub fn parse_json(bytes: &[u8]) -> (value: Option<StructuredValue>)
    ensures
        value == json_document(bytes@),
{
    match read_document(bytes) {
        Some(json) => Some(from_json(json)),
        None => None,
    }
}

} // verus!
