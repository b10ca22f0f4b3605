//! The two JSON services the library needs from `serde_json`: reading one top-level string
//! field of a text, and writing a string as a JSON string literal.
use vstd::prelude::*;

verus! {

/// What a top-level field of a JSON text holds.
#[derive(Clone, Debug, PartialEq, Eq)]
pub enum JsonField {
    /// The text is not JSON.
    NotJson,
    /// The text is JSON, but not an object with this field.
    Absent,
    /// The field holds this string.
    Text(String),
    /// The field holds something other than a string.
    Other,
}

/// What `serde_json` finds in the top-level field `key` of the JSON text `text`.
pub uninterp spec fn json_top_level_field(text: Seq<char>, key: Seq<char>) -> JsonField;

/// `serde_json::from_str::<serde_json::Value>` followed by `Value::get(key)`: parses `text` and
/// reports the top-level field `key`. The contract names the outcome; JSON syntax is not
/// restated.
#[verifier::external_body]
pub(crate) fn top_level_field(text: &str, key: &str) -> (r: JsonField)
    ensures
        r == json_top_level_field(text@, key@),
{
    match serde_json::from_str::<serde_json::Value>(text) {
        Err(_) => JsonField::NotJson,
        Ok(value) => match value.get(key) {
            None => JsonField::Absent,
            Some(serde_json::Value::String(s)) => JsonField::Text(s.clone()),
            Some(_) => JsonField::Other,
        },
    }
}

/// The JSON string literal `serde_json` writes for `s`.
pub uninterp spec fn json_quote(s: Seq<char>) -> Seq<char>;

/// `serde_json::to_string` on a string: `s` as a JSON string literal, quotes included, with
/// `"`, `\` and control characters escaped. The contract names the literal; serializing a
/// string cannot fail, and the escaping rules are not restated.
#[verifier::external_body]
pub(crate) fn json_string(s: &str) -> (r: String)
    ensures
        r@ == json_quote(s@),
{
    match serde_json::to_string(s) {
        Ok(text) => text,
        Err(_) => String::new(),
    }
}

/// Whether the JSON text has the top-level string field `key` equal to `value`.
pub open spec fn has_text_field(text: Seq<char>, key: Seq<char>, value: Seq<char>) -> bool {
    json_top_level_field(text, key) matches JsonField::Text(t) && t@ == value
}

/// Whether the top-level field `key` of `text` is the string `value`.
pub fn text_field_is(text: &str, key: &str, value: &str) -> (r: bool)
    ensures
        r == has_text_field(text@, key@, value@),
{
    match top_level_field(text, key) {
        JsonField::Text(t) => crate::text::str_eq(t.as_str(), value),
        _ => false,
    }
}

} // verus!
