//! Reading JSON text into configuration values. The text is parsed by `serde_json`; what it
//! yields is carried over, variant for variant, into the library's `ConfigValue`.

use vstd::prelude::*;

use crate::config::{ConfigNumber, ConfigValue, Json};

verus! {

#[verifier::external_type_specification]
#[verifier::external_body]
pub struct ExJsonValue(serde_json::Value);

/// The document a JSON text denotes, as `serde_json` reads it into a `Value` (objects with their
/// keys in sorted order, numbers by their written form), or `None` where the text is not JSON.
pub uninterp spec fn json_document(text: Seq<char>) -> Option<Json>;

/// A parsed `serde_json::Value` as a configuration value, variant for variant: `Null`, `Bool`,
/// `Number` (its `to_string` text and `as_i64`), `String`, `Array` item by item and `Object`
/// entry by entry in the map's order. Nothing is stated of the result: the `Value` is opaque to
/// proofs; `read_document` states what the pair of calls gives.
#[verifier::external_body]
fn config_of(value: &serde_json::Value) -> ConfigValue {
    match value {
        serde_json::Value::Null => ConfigValue::Null,
        serde_json::Value::Bool(b) => ConfigValue::Bool(*b),
        serde_json::Value::Number(n) => ConfigValue::Number(
            ConfigNumber { text: n.to_string(), integer: n.as_i64() },
        ),
        serde_json::Value::String(s) => ConfigValue::Str(s.clone()),
        serde_json::Value::Array(items) => ConfigValue::Array(items.iter().map(config_of).collect()),
        serde_json::Value::Object(map) => ConfigValue::Object(
            map.iter().map(|(key, item)| (key.clone(), config_of(item))).collect(),
        ),
    }
}

/// `serde_json::from_str::<serde_json::Value>`: on success the document, converted by
/// `config_of`, is `json_document(text)`; on failure the text has no document and the error is
/// handed back as its `Display` text. Which message `serde_json` writes is left unsaid.
#[verifier::external_body]
fn read_document(text: &str) -> (r: Result<ConfigValue, String>)
    ensures
        match r {
            Ok(v) => json_document(text@) == Some(v@),
            Err(_) => json_document(text@) is None,
        },
{
    match serde_json::from_str::<serde_json::Value>(text) {
        Ok(value) => Ok(config_of(&value)),
        Err(error) => Err(error.to_string()),
    }
}

/// Parse JSON text into a configuration value; `Err` carries the parser's message when the text
/// is not JSON.
pub fn parse_json_text(text: &str) -> (r: Result<ConfigValue, String>)
    ensures
        r is Ok <==> json_document(text@) is Some,
        r matches Ok(v) ==> json_document(text@) == Some(v@),
{
    match read_document(text) {
        Ok(v) => Ok(v),
        Err(message) => Err(message),
    }
}

/// Parse JSON text into a configuration value; `None` when the text is not JSON.
pub fn parse_json(text: &str) -> (r: Option<ConfigValue>)
    ensures
        match r {
            Some(v) => json_document(text@) == Some(v@),
            None => json_document(text@) is None,
        },
{
    match read_document(text) {
        Ok(v) => Some(v),
        Err(_) => None,
    }
}

} // verus!
