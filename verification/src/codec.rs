//! JSON text: reading a value from it and writing a value as it, both done by
//! `serde_json`.

use crate::json::{Json, JsonV};
use vstd::prelude::*;

verus! {

/// `serde_json::Value`, carried through as it is.
#[verifier::external_type_specification]
#[verifier::external_body]
pub struct ExValue(serde_json::Value);

/// `serde_json::Error`, carried through as it is.
#[verifier::external_type_specification]
#[verifier::external_body]
pub struct ExError(serde_json::Error);

/// The value that `serde_json::from_str` reads from a text, where it reads
/// one.
pub uninterp spec fn parsed_text(text: Seq<char>) -> Option<JsonV>;

/// The text that `serde_json::to_string_pretty` writes for a value, where
/// every number of the value is the text of a JSON number.
pub uninterp spec fn pretty_text(doc: JsonV) -> Option<Seq<char>>;

/// Turns a `serde_json::Value` into a value of the library, variant by
/// variant; a number becomes the text that its `Display` gives. Nothing is
/// claimed of the result.
#[verifier::external_body]
fn json_of_value(v: &serde_json::Value) -> Json {
    match v {
        serde_json::Value::Null => Json::Null,
        serde_json::Value::Bool(b) => Json::Bool(*b),
        serde_json::Value::Number(n) => Json::Number(n.to_string()),
        serde_json::Value::String(s) => Json::String(s.clone()),
        serde_json::Value::Array(a) => Json::Array(a.iter().map(json_of_value).collect()),
        serde_json::Value::Object(m) => Json::object(
            m.iter().map(|(k, v)| (k.as_str(), json_of_value(v))).collect(),
        ),
    }
}

/// Turns a value of the library into a `serde_json::Value`, variant by
/// variant; the text of a number is read back by `serde_json::from_str`,
/// whose failure is handed on. Nothing is claimed of the result.
#[verifier::external_body]
fn value_of_json(j: &Json) -> Result<serde_json::Value, serde_json::Error> {
    Ok(match j {
        Json::Null => serde_json::Value::Null,
        Json::Bool(b) => serde_json::Value::Bool(*b),
        Json::Number(t) => serde_json::Value::Number(serde_json::from_str(t)?),
        Json::String(s) => serde_json::Value::String(s.clone()),
        Json::Array(a) => serde_json::Value::Array(
            a.iter().map(value_of_json).collect::<Result<_, _>>()?,
        ),
        Json::Object(m) => serde_json::Value::Object(
            (0..m.len()).map(|i| Ok((m.key_at(i).clone(), value_of_json(m.value_at(i))?)))
                .collect::<Result<_, serde_json::Error>>()?,
        ),
    })
}

/// Calls `serde_json::from_str` for a `serde_json::Value`. What it reads
/// depends on the text alone and is known here only by its name; it fails
/// exactly where it reads nothing.
#[verifier::external_body]
pub(crate) fn parse_json(text: &str) -> (r: Result<Json, serde_json::Error>)
    ensures
        match r {
            Ok(v) => parsed_text(text@) == Some(v@),
            Err(_) => parsed_text(text@) is None,
        },
{
    serde_json::from_str::<serde_json::Value>(text).map(|v| json_of_value(&v))
}

/// Calls `serde_json::to_string_pretty`. What it writes depends on the
/// value alone and is known here only by its name; it fails exactly where
/// there is no such text.
#[verifier::external_body]
pub(crate) fn render_json(doc: &Json) -> (r: Result<String, serde_json::Error>)
    ensures
        match r {
            Ok(s) => pretty_text(doc@) == Some(s@),
            Err(_) => pretty_text(doc@) is None,
        },
{
    serde_json::to_string_pretty(&value_of_json(doc)?)
}

/// Calls `to_string` on a `serde_json::Error`, which gives its `Display`
/// text. Nothing is claimed of the text.
#[verifier::external_body]
pub(crate) fn error_text(e: &serde_json::Error) -> String {
    e.to_string()
}

impl Json {
    /// Reads a value from JSON text; where the text is no JSON, hands back
    /// the parser's message.
    pub fn parse(text: &str) -> (r: Result<Json, String>)
        ensures
            match r {
                Ok(v) => parsed_text(text@) == Some(v@),
                Err(_) => parsed_text(text@) is None,
            },
    {
        match parse_json(text) {
            Ok(v) => Ok(v),
            Err(e) => Err(error_text(&e)),
        }
    }

    /// Writes the value as pretty-printed JSON text; where a number of the
    /// value is no JSON number, hands back the parser's message.
    pub fn pretty(&self) -> (r: Result<String, String>)
        ensures
            match r {
                Ok(s) => pretty_text(self@) == Some(s@),
                Err(_) => pretty_text(self@) is None,
            },
    {
        match render_json(self) {
            Ok(s) => Ok(s),
            Err(e) => Err(error_text(&e)),
        }
    }
}

} // verus!
