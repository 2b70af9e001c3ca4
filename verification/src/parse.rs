//! The public entry point: JSON text goes through serde_json into the
//! library's value tree, which the verified renderer then turns into a
//! Lua table literal. Parsing is the only step that can fail, and the
//! only step taken on trust.

use vstd::prelude::*;

use crate::render::{render_doc, render_document};
use crate::value::{members_height, Json};

verus! {

/// The error returned when the input is not well-formed JSON with an
/// object root: it carries the parser's own diagnostic text.
#[derive(Debug)]
pub struct ParseError {
    /// What the JSON parser reported.
    pub message: String,
}

/// What serde_json yields for the given text when its root is read as
/// an order-preserving map from string keys to JSON values: `None`
/// when parsing fails, otherwise the top-level members in source
/// order, carried into the library's tree (numbers as their decimal
/// text form).
pub uninterp spec fn parsed_object(s: Seq<char>) -> Option<Seq<(String, Json)>>;

#[verifier::external_type_specification]
#[verifier::external_body]
pub struct ExValue(serde_json::Value);

/// Carries one parsed serde_json node into the library's tree, one
/// variant to one variant: strings, booleans and null moved over,
/// numbers through serde_json::Number's display form (their decimal
/// text), arrays and objects element by element in order. Part of the
/// trusted parsing boundary below: nothing is claimed of its result
/// here; `parse_json_object` pins the combined result through
/// `parsed_object`.
#[verifier::external_body]
fn from_value(v: serde_json::Value) -> Json {
    match v {
        serde_json::Value::Null => Json::Null,
        serde_json::Value::Bool(b) => Json::Bool(b),
        serde_json::Value::Number(n) => Json::Num(n.to_string()),
        serde_json::Value::String(s) => Json::Text(s),
        serde_json::Value::Array(a) => Json::Arr(a.into_iter().map(from_value).collect()),
        serde_json::Value::Object(o) => Json::Obj(
            o.into_iter().map(|(k, w)| (k, from_value(w))).collect(),
        ),
    }
}

/// Relies on serde_json::from_str deserializing into an
/// indexmap::IndexMap<String, serde_json::Value>: it succeeds exactly
/// on well-formed JSON whose root is an object, keeps the members in
/// the order their keys appear in the text (indexmap's Deserialize
/// inserts them in encounter order), and refuses documents nested
/// deeper than its recursion limit of 128, which bounds the height of
/// what comes back. On failure the parser's diagnostic is returned as
/// text.
#[verifier::external_body]
fn parse_json_object(s: &str) -> (r: Result<Vec<(String, Json)>, String>)
    ensures
        r is Ok <==> parsed_object(s@) is Some,
        r is Ok ==> r->Ok_0@ == parsed_object(s@)->0,
        r is Ok ==> members_height(r->Ok_0@) <= 128,
{
    match serde_json::from_str::<indexmap::IndexMap<String, serde_json::Value>>(s) {
        Ok(m) => Ok(m.into_iter().map(|(k, v)| (k, from_value(v))).collect()),
        Err(e) => Err(e.to_string()),
    }
}

/// Parse JSON text and return the text of the equivalent Lua table
/// literal: tab-indented, every key a bracketed string literal, every
/// entry ending in a comma, and the final `}` followed by nothing.
pub fn parse(json: &str) -> (r: Result<String, ParseError>)
    ensures
        r is Ok <==> parsed_object(json@) is Some,
        r is Ok ==> r->Ok_0@ == render_doc(parsed_object(json@)->0),
{
    match parse_json_object(json) {
        Ok(entries) => Ok(render_document(&entries)),
        Err(message) => Err(ParseError { message }),
    }
}

} // verus!
