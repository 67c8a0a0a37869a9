//! Reading and writing JSON text.
//!
//! The text format itself is the business of `serde_json`. This module calls
//! it, converts between its tree and [`Json`] node for node, and gives names
//! to what it returns, so that the contracts of the library can speak of the
//! document that a text holds and of the text that a document is written as.
//! What is marked `external_body` here is not proved: these are the
//! assumptions that the proofs of the library rest on. They are made of
//! `serde_json` as it is built with its default features, where the members
//! of an object are kept in the order of their keys.

use crate::json::{DecimalText, Json, JsonModel, JsonNumber};
use serde_json::Value;
use vstd::prelude::*;

verus! {

/// `serde_json::Value`, the tree that `serde_json` reads and writes. It is
/// only carried between the calls in this module; nothing is assumed of it.
#[verifier::external_type_specification]
#[verifier::external_body]
pub struct ExValue(serde_json::Value);

/// `serde_json::Number`, a number of that tree. Nothing is assumed of it.
#[verifier::external_type_specification]
#[verifier::external_body]
pub struct ExNumber(serde_json::Number);

/// `serde_json::Error`, what its parser and its serialiser fail with.
/// Nothing is assumed of it.
#[verifier::external_type_specification]
#[verifier::external_body]
pub struct ExError(serde_json::Error);

/// The document that `serde_json::from_str` reads from `text`, or `None`
/// where it reports an error.
pub uninterp spec fn parsed_json(text: Seq<char>) -> Option<JsonModel>;

/// The text that `serde_json::to_string_pretty` writes for `doc`.
pub uninterp spec fn pretty_text(doc: JsonModel) -> Seq<char>;

/// Calls `serde_json::from_str` for a `serde_json::Value` and converts the
/// tree it returns. Assumed: the call succeeds exactly where `parsed_json`
/// has a document, which is the model of the tree handed back.
#[verifier::external_body]
pub(crate) fn read_json(text: &str) -> (r: Result<Json, serde_json::Error>)
    ensures
        r is Ok <==> parsed_json(text@) is Some,
        r matches Ok(doc) ==> parsed_json(text@) == Some(doc@),
{
    match serde_json::from_str::<Value>(text) {
        Ok(v) => Ok(from_value(&v)),
        Err(e) => Err(e),
    }
}

/// Calls `serde_json::to_string_pretty` on the converted tree. Assumed: the
/// call succeeds, and the text handed back is `pretty_text` of the document.
///
/// It succeeds because neither of the two causes of failure that
/// `to_string_pretty` documents can arise with a `serde_json::Value`: its
/// `Serialize` impl only hands on what the serialiser returns, which writes
/// into memory, and the keys of its maps are strings. The text depends on
/// the document alone because `serde_json` keeps the members of an object
/// ordered by key, so that equal maps are written alike.
#[verifier::external_body]
pub(crate) fn write_json(doc: &Json) -> (r: Result<String, serde_json::Error>)
    ensures
        r is Ok,
        r matches Ok(text) ==> text@ == pretty_text(doc@),
{
    serde_json::to_string_pretty(&to_value(doc))
}

/// The message of a `serde_json::Error`, from its `Display` impl. Nothing is
/// assumed of it.
#[verifier::external_body]
pub(crate) fn error_text(e: &serde_json::Error) -> String {
    e.to_string()
}

/// Converts a `serde_json::Value` node for node. Nothing is assumed of the
/// result here; `read_json` names it.
#[verifier::external_body]
fn from_value(v: &serde_json::Value) -> Json {
    match v {
        Value::Null => Json::Null,
        Value::Bool(b) => Json::Bool(*b),
        Value::Number(n) => Json::Number(from_number(n)),
        Value::String(s) => Json::Str(s.clone()),
        Value::Array(a) => Json::Array(a.iter().map(from_value).collect()),
        Value::Object(o) => Json::Object(
            o.iter().map(|(k, x)| (k.clone(), from_value(x))).collect(),
        ),
    }
}

/// Converts a `serde_json::Number`, telling its three forms apart; what is
/// no integer of 64 bits is kept as the text that `Display` writes for it.
/// Nothing is assumed of the result.
#[verifier::external_body]
fn from_number(n: &serde_json::Number) -> JsonNumber {
    match (n.as_u64(), n.as_i64()) {
        (Some(u), _) => JsonNumber::Unsigned(u),
        (None, Some(i)) => JsonNumber::Negative(i),
        (None, None) => JsonNumber::Decimal(DecimalText::of_rendering(n.to_string())),
    }
}

/// Builds the `serde_json::Value` for a tree node for node; a later entry of
/// an object replaces an earlier one with the same key, as in the model.
/// Nothing is assumed of the result here; `write_json` names its text.
#[verifier::external_body]
fn to_value(doc: &Json) -> serde_json::Value {
    match doc {
        Json::Null => Value::Null,
        Json::Bool(b) => Value::Bool(*b),
        Json::Number(n) => to_number(n),
        Json::Str(s) => Value::String(s.clone()),
        Json::Array(a) => Value::Array(a.iter().map(to_value).collect()),
        Json::Object(o) => {
            let mut m = serde_json::Map::new();
            for (k, x) in o.iter() {
                m.insert(k.clone(), to_value(x));
            }
            Value::Object(m)
        },
    }
}

/// Builds the `serde_json::Value` for a number. A decimal is read back from
/// its text with `serde_json::from_str`; the text is `serde_json`'s own
/// rendering of the number (see [`DecimalText`]), so the error, for which
/// `null` stands here, does not come. Nothing is assumed of the result.
#[verifier::external_body]
fn to_number(n: &JsonNumber) -> serde_json::Value {
    match n {
        JsonNumber::Unsigned(u) => Value::from(*u),
        JsonNumber::Negative(i) => Value::from(*i),
        JsonNumber::Decimal(s) => serde_json::from_str::<serde_json::Number>(s.as_str()).map_or(
            Value::Null,
            Value::Number,
        ),
    }
}

/// Why a text could not be read as a JSON document.
#[derive(Debug)]
pub struct ParseError {
    /// The parser's message.
    pub message: String,
}

/// Why a document could not be written as text.
#[derive(Debug)]
pub struct WriteError {
    /// The serialiser's message.
    pub message: String,
}

/// Reads `text` as a JSON document.
pub fn parse(text: &str) -> (r: Result<Json, ParseError>)
    ensures
        r is Ok <==> parsed_json(text@) is Some,
        r matches Ok(doc) ==> parsed_json(text@) == Some(doc@),
{
    match read_json(text) {
        Ok(doc) => Ok(doc),
        Err(e) => Err(ParseError { message: error_text(&e) }),
    }
}

/// Writes `doc` as indented JSON text. This succeeds for every document; the
/// error is there for what the serialiser's signature allows.
pub fn to_pretty(doc: &Json) -> (r: Result<String, WriteError>)
    ensures
        r matches Ok(text) && text@ == pretty_text(doc@),
{
    match write_json(doc) {
        Ok(text) => Ok(text),
        Err(e) => Err(WriteError { message: error_text(&e) }),
    }
}

} // verus!
