//! The trusted boundary to the JSON parser and printer of the `serde_json`
//! crate. Everything else in the library is verified against the two names
//! `spec_parse_json` and `spec_render_json` that this module introduces.

use crate::json::{view_json, JVal, Json};
use vstd::prelude::*;

verus! {

#[verifier::external_type_specification]
#[verifier::external_body]
pub struct ExNumber(serde_json::Number);

#[verifier::external_type_specification]
#[verifier::external_body]
pub struct ExValue(serde_json::Value);

/// Relies on `Clone` for `serde_json::Number`, a derived clone of a plain
/// data type: the copy is the same value.
pub assume_specification[ <serde_json::Number as Clone>::clone ](
    n: &serde_json::Number,
) -> (r: serde_json::Number)
    ensures
        r == *n,
;

/// What `serde_json::from_str` makes of a text: the parsed value, or `None`
/// where the parser rejects the text. The parse depends on the text alone
/// (object members come back ordered by key, since the parser's map keeps
/// its keys sorted).
pub uninterp spec fn spec_parse_json(s: Seq<char>) -> Option<JVal>;

/// What `serde_json::to_string` prints for a value. The text depends on the
/// value alone.
pub uninterp spec fn spec_render_json(v: JVal) -> Seq<char>;

/// Converts the parser's value type into the library's: one arm per variant,
/// fields moved over, object fields in the order the parser's map yields
/// them.
#[verifier::external_body]
fn json_of_value(v: serde_json::Value) -> Json {
    match v {
        serde_json::Value::Null => Json::Null,
        serde_json::Value::Bool(b) => Json::Bool(b),
        serde_json::Value::Number(n) => Json::Num(n),
        serde_json::Value::String(s) => Json::Str(s),
        serde_json::Value::Array(a) => Json::Arr(a.into_iter().map(json_of_value).collect()),
        serde_json::Value::Object(o) => Json::Obj(
            o.into_iter().map(|(k, w)| (k, json_of_value(w))).collect(),
        ),
    }
}

/// Converts a library value back into the parser's value type: one arm per
/// variant, fields copied over.
#[verifier::external_body]
fn value_of_json(j: &Json) -> serde_json::Value {
    match j {
        Json::Null => serde_json::Value::Null,
        Json::Bool(b) => serde_json::Value::Bool(*b),
        Json::Num(n) => serde_json::Value::Number(n.clone()),
        Json::Str(s) => serde_json::Value::String(s.clone()),
        Json::Arr(a) => serde_json::Value::Array(a.iter().map(value_of_json).collect()),
        Json::Obj(o) => serde_json::Value::Object(
            o.iter().map(|(k, w)| (k.clone(), value_of_json(w))).collect(),
        ),
    }
}

/// Relies on `serde_json::from_str`: parsing succeeds exactly on valid JSON
/// texts, and the parsed value is a function of the text alone. A failure
/// carries the parser's own message.
#[verifier::external_body]
pub(crate) fn parse_json(s: &str) -> (r: Result<Json, String>)
    ensures
        r is Ok <==> spec_parse_json(s@) is Some,
        r is Ok ==> view_json(r->Ok_0) == spec_parse_json(s@)->Some_0,
{
    match serde_json::from_str::<serde_json::Value>(s) {
        Ok(v) => Ok(json_of_value(v)),
        Err(e) => Err(e.to_string()),
    }
}

/// Relies on `serde_json::to_string`: printing a tree of plain JSON values
/// never fails (the fallback arm is unreachable), and the text depends on
/// the value alone.
#[verifier::external_body]
pub(crate) fn render_json(j: &Json) -> (r: String)
    ensures
        r@ == spec_render_json(view_json(*j)),
{
    match serde_json::to_string(&value_of_json(j)) {
        Ok(s) => s,
        Err(_) => String::new(),
    }
}

} // verus!
