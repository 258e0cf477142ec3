//! The nested-result extractor: walks the store's response envelope (a JSON
//! array of per-statement results) and pulls out the `result` array of one
//! statement.

use crate::codec::{parse_json, render_json, spec_parse_json, spec_render_json};
use crate::json::{elems_view, fields_view, view_json, JVal, Json};
use vstd::prelude::*;
use vstd::string::*;

verus! {

/// The shapes of response that the extractor rejects.
#[derive(Debug, Clone, Copy, PartialEq, Eq, Structural)]
pub enum ShapeKind {
    /// The top level of the response is not an array.
    NotArray,
    /// The statement index is outside the top-level array.
    IndexOutOfRange,
    /// The statement object has no `result` field.
    MissingResultKey,
    /// The `result` field is not an array.
    ResultNotArray,
}

/// An extraction failure: the response was not JSON at all (the payload
/// carries the parser's message), or its shape was not the expected envelope
/// (the payload carries the printed response).
#[derive(Debug, PartialEq)]
pub enum DbError {
    InvalidJson(String),
    UnexpectedShape(ShapeKind, String),
}

/// The value of the first field of `fields` named `key`, if any.
pub open spec fn spec_obj_get(fields: Seq<(Seq<char>, JVal)>, key: Seq<char>) -> Option<JVal>
    decreases fields.len(),
{
    if fields.len() == 0 {
        None
    } else if fields[0].0 == key {
        Some(fields[0].1)
    } else {
        spec_obj_get(fields.subrange(1, fields.len() as int), key)
    }
}

/// Field lookup as the store's JSON values offer it: `None` on anything that
/// is not an object.
pub open spec fn spec_get(v: JVal, key: Seq<char>) -> Option<JVal> {
    match v {
        JVal::Obj(fields) => spec_obj_get(fields, key),
        _ => None,
    }
}

/// What extracting statement `index` from envelope `v` yields: the rows of
/// that statement's `result` array, or the shape that was wrong.
pub open spec fn spec_extract(v: JVal, index: int) -> Result<Seq<JVal>, ShapeKind> {
    match v {
        JVal::Arr(elems) => if 0 <= index < elems.len() {
            match spec_get(elems[index], "result"@) {
                Some(JVal::Arr(rows)) => Ok(rows),
                Some(_) => Err(ShapeKind::ResultNotArray),
                None => Err(ShapeKind::MissingResultKey),
            }
        } else {
            Err(ShapeKind::IndexOutOfRange)
        },
        _ => Err(ShapeKind::NotArray),
    }
}

/// Where the first field named `key` stands at index `i`, the lookup
/// yields that field's value.
pub proof fn lemma_obj_get_at(fields: Seq<(Seq<char>, JVal)>, key: Seq<char>, i: int)
    requires
        0 <= i < fields.len(),
        fields[i].0 == key,
        forall|j: int| 0 <= j < i ==> fields[j].0 != key,
    ensures
        spec_obj_get(fields, key) == Some(fields[i].1),
    decreases i,
{
    if i > 0 {
        lemma_obj_get_at(fields.subrange(1, fields.len() as int), key, i - 1);
    }
}

/// Where no field is named `key`, the lookup yields nothing.
pub proof fn lemma_obj_get_absent(fields: Seq<(Seq<char>, JVal)>, key: Seq<char>)
    requires
        forall|j: int| 0 <= j < fields.len() ==> fields[j].0 != key,
    ensures
        spec_obj_get(fields, key) is None,
    decreases fields.len(),
{
    if fields.len() > 0 {
        lemma_obj_get_absent(fields.subrange(1, fields.len() as int), key);
    }
}

/// The index of the first field of `fields` named `key`, if any.
pub fn find_key(fields: &Vec<(String, Json)>, key: &String) -> (r: Option<usize>)
    ensures
        match r {
            Some(i) => {
                &&& i < fields@.len()
                &&& fields@[i as int].0@ == key@
                &&& forall|j: int| 0 <= j < i ==> fields@[j].0@ != key@
            },
            None => forall|j: int| 0 <= j < fields@.len() ==> fields@[j].0@ != key@,
        },
{
    let mut i: usize = 0;
    while i < fields.len()
        invariant
            i <= fields@.len(),
            forall|j: int| 0 <= j < i ==> fields@[j].0@ != key@,
        decreases fields@.len() - i,
    {
        if fields[i].0 == *key {
            return Some(i);
        }
        i = i + 1;
    }
    None
}

/// Extracts the `result` rows of statement `index` from a parsed response
/// envelope. Failures report the shape that was wrong, together with the
/// printed response.
pub fn extract_result_from_json(response: Json, index: usize) -> (r: Result<Vec<Json>, DbError>)
    ensures
        (match spec_extract(response@, index as int) {
            Ok(rows) => r matches Ok(v) && elems_view(v@) == rows,
            Err(k) => r matches Err(e) && (e matches DbError::UnexpectedShape(
                k2,
                s,
            ) && k2 == k && s@ == spec_render_json(response@)),
        }),
{
    let rendered = render_json(&response);
    match response {
        Json::Arr(mut items) => {
            if index < items.len() {
                let ghost items0 = items@;
                let elem = items.remove(index);
                proof {
                    assert(view_json(elem) == elems_view(items0)[index as int]);
                }
                match elem {
                    Json::Obj(mut fields) => {
                        let key = "result".to_owned();
                        match find_key(&fields, &key) {
                            Some(fi) => {
                                proof {
                                    lemma_obj_get_at(fields_view(fields@), "result"@, fi as int);
                                }
                                let ghost fields0 = fields@;
                                let pair = fields.remove(fi);
                                proof {
                                    assert(view_json(pair.1) == fields_view(fields0)[fi as int].1);
                                }
                                match pair.1 {
                                    Json::Arr(rows) => Ok(rows),
                                    _ => Err(
                                        DbError::UnexpectedShape(
                                            ShapeKind::ResultNotArray,
                                            rendered,
                                        ),
                                    ),
                                }
                            },
                            None => {
                                proof {
                                    lemma_obj_get_absent(fields_view(fields@), "result"@);
                                }
                                Err(DbError::UnexpectedShape(ShapeKind::MissingResultKey, rendered))
                            },
                        }
                    },
                    _ => Err(DbError::UnexpectedShape(ShapeKind::MissingResultKey, rendered)),
                }
            } else {
                Err(DbError::UnexpectedShape(ShapeKind::IndexOutOfRange, rendered))
            }
        },
        _ => Err(DbError::UnexpectedShape(ShapeKind::NotArray, rendered)),
    }
}

/// Parses the store's raw response text and extracts the `result` rows of
/// statement `index`. A text that is not JSON is an `InvalidJson` failure;
/// a valid text of the wrong shape is an `UnexpectedShape` failure.
pub fn extract_result(response_text: &str, index: usize) -> (r: Result<Vec<Json>, DbError>)
    ensures
        spec_parse_json(response_text@) is None ==> (r matches Err(e) && e matches DbError::InvalidJson(_)),
        (match spec_parse_json(response_text@) {
            Some(m) => match spec_extract(m, index as int) {
                Ok(rows) => r matches Ok(v) && elems_view(v@) == rows,
                Err(k) => r matches Err(e) && (e matches DbError::UnexpectedShape(
                    k2,
                    s,
                ) && k2 == k && s@ == spec_render_json(m)),
            },
            None => true,
        }),
{
    match parse_json(response_text) {
        Ok(j) => extract_result_from_json(j, index),
        Err(m) => Err(DbError::InvalidJson(m)),
    }
}

impl DbError {
    /// The human-readable description of the failure.
    pub open spec fn spec_message(&self) -> Seq<char> {
        match self {
            DbError::InvalidJson(m) => "DB returned invalid JSON: "@ + m@,
            DbError::UnexpectedShape(k, s) => match k {
                ShapeKind::NotArray => "Database returned unexpected JSON: top-level is not an array ("@
                    + s@ + ")."@,
                ShapeKind::IndexOutOfRange => "Database returned unexpected JSON: array is empty ("@
                    + s@ + ")."@,
                ShapeKind::MissingResultKey => "Database returned unexpected JSON: object does not contain 'result' key ("@
                    + s@ + ")."@,
                ShapeKind::ResultNotArray => "Database returned unexpected JSON: 'result' is not an array ("@
                    + s@ + ")."@,
            },
        }
    }

    /// The human-readable description of the failure.
    pub fn message(&self) -> (r: String)
        ensures
            r@ == self.spec_message(),
    {
        match self {
            DbError::InvalidJson(m) => {
                let mut out = "DB returned invalid JSON: ".to_owned();
                out.append(m.as_str());
                out
            },
            DbError::UnexpectedShape(k, s) => {
                let mut out = match k {
                    ShapeKind::NotArray => "Database returned unexpected JSON: top-level is not an array (".to_owned(),
                    ShapeKind::IndexOutOfRange => "Database returned unexpected JSON: array is empty (".to_owned(),
                    ShapeKind::MissingResultKey => "Database returned unexpected JSON: object does not contain 'result' key (".to_owned(),
                    ShapeKind::ResultNotArray => "Database returned unexpected JSON: 'result' is not an array (".to_owned(),
                };
                out.append(s.as_str());
                out.append(").");
                out
            },
        }
    }
}

} // verus!
