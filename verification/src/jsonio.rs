//! Bridge between JSON text and the [`crate::json::Json`] tree, through
//! serde_json. Parsing and printing of JSON text are the outside crate's
//! work; everything the library decides about the tree is verified elsewhere.

use vstd::prelude::*;
use core::str::FromStr;
use crate::json::{Json, JsonV};

verus! {

/// serde_json's dynamic JSON value, carried opaquely.
#[verifier::external_type_specification]
#[verifier::external_body]
pub struct ExValue(serde_json::Value);

/// What parsing the text as JSON yields, as a tree shape: the shape, or
/// nothing where the text is not a valid JSON document.
pub uninterp spec fn json_tree_of(text: Seq<char>) -> Option<JsonV>;

/// What printing a tree shape as compact JSON text yields: the text, or
/// nothing where a number token of the tree is not a valid JSON number.
pub uninterp spec fn json_text_of(v: JsonV) -> Option<Seq<char>>;

/// Relies on serde_json::from_str: parses JSON text into a dynamic value,
/// or errors on malformed JSON; the result is a function of the text alone.
/// The value is converted member by member into the library's tree, and
/// everything decided about the tree is verified.
#[verifier::external_body]
pub fn json_from_text(text: &str) -> (r: Result<Json, ()>)
    ensures
        r matches Ok(j) ==> json_tree_of(text@) == Some(j.jv()),
        r is Err ==> json_tree_of(text@) is None,
{
    match serde_json::from_str::<serde_json::Value>(text) {
        Ok(v) => Ok(value_to_json(v)),
        Err(_) => Err(()),
    }
}

/// Relies on serde_json::Value conversions: one tree variant per arm,
/// moving the content over.
#[verifier::external_body]
fn value_to_json(v: serde_json::Value) -> Json {
    match v {
        serde_json::Value::Null => Json::Null,
        serde_json::Value::Bool(b) => Json::Bool(b),
        serde_json::Value::Number(n) => Json::Num(n.to_string()),
        serde_json::Value::String(s) => Json::Str(s),
        serde_json::Value::Array(a) => Json::Arr(a.into_iter().map(value_to_json).collect()),
        serde_json::Value::Object(o) => Json::Obj(
            o.into_iter().map(|(k, x)| (k, value_to_json(x))).collect(),
        ),
    }
}

/// Relies on serde_json::to_string: prints a dynamic value as compact JSON
/// text; the result is a function of the tree shape alone. Errors only
/// where a number token of the tree is not a valid JSON number.
#[verifier::external_body]
pub fn json_to_text(j: &Json) -> (r: Result<String, ()>)
    ensures
        r matches Ok(s) ==> json_text_of(j.jv()) == Some(s@),
        r is Err ==> json_text_of(j.jv()) is None,
{
    match json_to_value(j) {
        Some(v) => match serde_json::to_string(&v) {
            Ok(s) => Ok(s),
            Err(_) => Err(()),
        },
        None => Err(()),
    }
}

/// Relies on serde_json::Value and serde_json::Number::from_str: one tree
/// variant per arm, moving the content over; a number token that
/// serde_json does not accept yields `None`.
#[verifier::external_body]
fn json_to_value(j: &Json) -> Option<serde_json::Value> {
    match j {
        Json::Null => Some(serde_json::Value::Null),
        Json::Bool(b) => Some(serde_json::Value::Bool(*b)),
        Json::Num(t) => serde_json::Number::from_str(t).ok().map(serde_json::Value::Number),
        Json::Str(s) => Some(serde_json::Value::String(s.clone())),
        Json::Arr(a) => a.iter().map(json_to_value).collect::<Option<Vec<_>>>().map(
            serde_json::Value::Array,
        ),
        Json::Obj(o) => o.iter().map(|(k, x)| Some((k.clone(), json_to_value(x)?))).collect::<
            Option<serde_json::Map<_, _>>,
        >().map(serde_json::Value::Object),
    }
}

} // verus!
