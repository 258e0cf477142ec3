//! The JSON values the library works on, and their mathematical model.

use vstd::prelude::*;

verus! {

/// A JSON value as the library holds it: arrays and objects as vectors of
/// their members, object fields in the order the parser yields them, and
/// numbers carried opaquely as the parser's own number type (the library
/// never reads a number's value, it only moves numbers around).
#[derive(Debug, PartialEq)]
pub enum Json {
    Null,
    Bool(bool),
    Num(serde_json::Number),
    Str(String),
    Arr(Vec<Json>),
    Obj(Vec<(String, Json)>),
}

/// The mathematical model of a JSON value: strings as character sequences,
/// arrays and objects as sequences. Contracts speak of this model.
pub enum JVal {
    Null,
    Bool(bool),
    Num(serde_json::Number),
    Str(Seq<char>),
    Arr(Seq<JVal>),
    Obj(Seq<(Seq<char>, JVal)>),
}

/// The model of a JSON value.
pub open spec fn view_json(j: Json) -> JVal
    decreases j,
{
    match j {
        Json::Null => JVal::Null,
        Json::Bool(b) => JVal::Bool(b),
        Json::Num(n) => JVal::Num(n),
        Json::Str(s) => JVal::Str(s@),
        Json::Arr(items) => JVal::Arr(elems_view(items@)),
        Json::Obj(fields) => JVal::Obj(fields_view(fields@)),
    }
}

/// The models of an array's elements, in order.
pub open spec fn elems_view(s: Seq<Json>) -> Seq<JVal>
    decreases s,
{
    Seq::new(
        s.len(),
        |i: int|
            if 0 <= i < s.len() {
                view_json(s[i])
            } else {
                JVal::Null
            },
    )
}

/// The models of an object's fields, in order.
pub open spec fn fields_view(s: Seq<(String, Json)>) -> Seq<(Seq<char>, JVal)>
    decreases s,
{
    Seq::new(
        s.len(),
        |i: int|
            if 0 <= i < s.len() {
                (s[i].0@, view_json(s[i].1))
            } else {
                (Seq::empty(), JVal::Null)
            },
    )
}

impl View for Json {
    type V = JVal;

    open spec fn view(&self) -> JVal {
        view_json(*self)
    }
}

} // verus!
