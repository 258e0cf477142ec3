//! Ad-hoc navigation of JSON values: the key-path walk that indexes into a
//! value step by step, and the discovery of the dotted key-paths of all
//! nested objects.

use crate::codec::{render_json, spec_render_json};
use crate::extract::{spec_obj_get, find_key};
use crate::json::{elems_view, fields_view, view_json, JVal, Json};
use crate::text::{spec_digits, strings_view, u64_string};
use vstd::prelude::*;
use vstd::string::*;

verus! {

/// One step of a key-path: an object field name or an array index.
#[derive(Debug, PartialEq)]
pub enum PathKey {
    Field(String),
    Index(usize),
}

/// The model of a key-path step.
pub enum PathKeyV {
    Field(Seq<char>),
    Index(int),
}

impl View for PathKey {
    type V = PathKeyV;

    open spec fn view(&self) -> PathKeyV {
        match self {
            PathKey::Field(s) => PathKeyV::Field(s@),
            PathKey::Index(i) => PathKeyV::Index(*i as int),
        }
    }
}

/// The models of a key-path, in order.
pub open spec fn path_view(s: Seq<PathKey>) -> Seq<PathKeyV> {
    s.map_values(|k: PathKey| k@)
}

/// One navigation step: the named field of an object, or the indexed
/// element of an array; `None` where the step does not apply.
pub open spec fn spec_step(v: JVal, k: PathKeyV) -> Option<JVal> {
    match v {
        JVal::Obj(fields) => match k {
            PathKeyV::Field(name) => spec_obj_get(fields, name),
            _ => None,
        },
        JVal::Arr(elems) => match k {
            PathKeyV::Index(i) => if 0 <= i < elems.len() {
                Some(elems[i])
            } else {
                None
            },
            _ => None,
        },
        _ => None,
    }
}

/// Walking a key-path: the value at the end of the path, or, at the first
/// step that does not apply, that step together with the value it was tried
/// on.
pub open spec fn spec_walk(v: JVal, path: Seq<PathKeyV>) -> Result<JVal, (PathKeyV, JVal)>
    decreases path.len(),
{
    if path.len() == 0 {
        Ok(v)
    } else {
        match spec_step(v, path[0]) {
            Some(c) => spec_walk(c, path.subrange(1, path.len() as int)),
            None => Err((path[0], v)),
        }
    }
}

/// The text of a key-path step: the field name, or the index in decimal.
pub open spec fn spec_key_text(k: PathKeyV) -> Seq<char> {
    match k {
        PathKeyV::Field(s) => s,
        PathKeyV::Index(i) => spec_digits(i as nat),
    }
}

/// The message of a failed walk: it names the offending key and prints the
/// value that the step was tried on.
pub open spec fn spec_walk_error(k: PathKeyV, encl: JVal) -> Seq<char> {
    "Error when getting key "@ + spec_key_text(k) + " from json "@ + spec_render_json(encl)
}

fn walk_error(key: &PathKey, encl: &Json) -> (r: String)
    ensures
        r@ == spec_walk_error(key@, encl@),
{
    let mut out = "Error when getting key ".to_owned();
    match key {
        PathKey::Field(s) => out.append(s.as_str()),
        PathKey::Index(i) => {
            let d = u64_string(*i as u64);
            out.append(d.as_str());
        },
    }
    out.append(" from json ");
    let rend = render_json(encl);
    out.append(rend.as_str());
    out
}

fn walk_from(value: Json, path: &Vec<PathKey>, i: usize) -> (r: Result<Json, String>)
    requires
        i <= path@.len(),
    ensures
        (match spec_walk(value@, path_view(path@).subrange(i as int, path@.len() as int)) {
            Ok(v) => r matches Ok(j) && j@ == v,
            Err((k, encl)) => r matches Err(m) && m@ == spec_walk_error(k, encl),
        }),
    decreases path@.len() - i,
{
    if i == path.len() {
        return Ok(value);
    }
    let ghost rest = path_view(path@).subrange(i as int, path@.len() as int);
    proof {
        assert(rest[0] == path@[i as int]@);
        assert(rest.subrange(1, rest.len() as int) =~= path_view(path@).subrange(
            i as int + 1,
            path@.len() as int,
        ));
    }
    match (value, &path[i]) {
        (Json::Obj(mut fields), PathKey::Field(name)) => {
            match find_key(&fields, name) {
                Some(fi) => {
                    proof {
                        crate::extract::lemma_obj_get_at(fields_view(fields@), name@, fi as int);
                    }
                    let ghost fields0 = fields@;
                    let pair = fields.remove(fi);
                    proof {
                        assert(view_json(pair.1) == fields_view(fields0)[fi as int].1);
                    }
                    walk_from(pair.1, path, i + 1)
                },
                None => {
                    proof {
                        crate::extract::lemma_obj_get_absent(fields_view(fields@), name@);
                    }
                    Err(walk_error(&path[i], &Json::Obj(fields)))
                },
            }
        },
        (Json::Arr(mut items), PathKey::Index(idx)) => {
            if *idx < items.len() {
                let ghost items0 = items@;
                let elem = items.remove(*idx);
                proof {
                    assert(view_json(elem) == elems_view(items0)[*idx as int]);
                }
                walk_from(elem, path, i + 1)
            } else {
                Err(walk_error(&path[i], &Json::Arr(items)))
            }
        },
        (other, _) => Err(walk_error(&path[i], &other)),
    }
}

/// Navigates `value` by successively indexing with each element of `path`
/// (object field or array index) and returns the value the path ends on;
/// the first step that does not apply fails with a message naming the
/// offending key and the value it was tried on. The path must not be empty.
pub fn extract_nested_json(value: Json, path: &Vec<PathKey>) -> (r: Result<Json, String>)
    requires
        path@.len() >= 1,
    ensures
        (match spec_walk(value@, path_view(path@)) {
            Ok(v) => r matches Ok(j) && j@ == v,
            Err((k, encl)) => r matches Err(m) && m@ == spec_walk_error(k, encl),
        }),
{
    proof {
        assert(path_view(path@).subrange(0, path@.len() as int) =~= path_view(path@));
    }
    walk_from(value, path, 0)
}

/// The dotted key-paths found under one object field: the paths of a
/// non-empty object value, each prefixed with the field's own key and a
/// dot; any other value contributes the field's key alone.
pub open spec fn spec_detect_head(field: (Seq<char>, JVal)) -> Seq<Seq<char>>
    decreases field,
{
    match field.1 {
        JVal::Obj(nested) => if nested.len() > 0 {
            spec_detect(nested).map_values(|s: Seq<char>| field.0 + "."@ + s)
        } else {
            seq![field.0]
        },
        _ => seq![field.0],
    }
}

/// The dotted key-paths of all nested values of an object, in field order.
pub open spec fn spec_detect(fields: Seq<(Seq<char>, JVal)>) -> Seq<Seq<char>>
    decreases fields,
{
    if fields.len() == 0 {
        Seq::empty()
    } else {
        spec_detect_head(fields[0]) + spec_detect(fields.subrange(1, fields.len() as int))
    }
}

proof fn lemma_detect_concat(a: Seq<(Seq<char>, JVal)>, b: Seq<(Seq<char>, JVal)>)
    ensures
        spec_detect(a + b) == spec_detect(a) + spec_detect(b),
    decreases a.len(),
{
    if a.len() == 0 {
        assert(a + b =~= b);
        assert(spec_detect(a) + spec_detect(b) =~= spec_detect(b));
    } else {
        let t = a.subrange(1, a.len() as int);
        lemma_detect_concat(t, b);
        assert((a + b).subrange(1, (a + b).len() as int) =~= t + b);
        assert((a + b)[0] == a[0]);
        assert(spec_detect_head(a[0]) + (spec_detect(t) + spec_detect(b)) =~= (spec_detect_head(
            a[0],
        ) + spec_detect(t)) + spec_detect(b));
    }
}

proof fn lemma_detect_snoc(fields: Seq<(Seq<char>, JVal)>, i: int)
    requires
        0 <= i < fields.len(),
    ensures
        spec_detect(fields.subrange(0, i + 1)) == spec_detect(fields.subrange(0, i))
            + spec_detect_head(fields[i]),
{
    let one = seq![fields[i]];
    lemma_detect_concat(fields.subrange(0, i), one);
    assert(fields.subrange(0, i + 1) =~= fields.subrange(0, i) + one);
    assert(one.subrange(1, 1) =~= Seq::<(Seq<char>, JVal)>::empty());
    assert(spec_detect(one) == spec_detect_head(one[0]) + spec_detect(one.subrange(1, 1)));
    assert(spec_detect(one.subrange(1, 1)) == Seq::<Seq<char>>::empty());
    assert(spec_detect(one) =~= spec_detect_head(fields[i]));
}

/// Enumerates the dotted key-paths of all nested values of a JSON object:
/// a field whose value is a non-empty object contributes its children's
/// paths prefixed with `key.`; every other field contributes its own key.
pub fn detect_nested_json(fields: &Vec<(String, Json)>) -> (r: Vec<String>)
    ensures
        strings_view(r@) == spec_detect(fields_view(fields@)),
    decreases fields@,
{
    let mut out: Vec<String> = Vec::new();
    proof {
        assert(strings_view(out@) =~= Seq::<Seq<char>>::empty());
        assert(fields_view(fields@).subrange(0, 0) =~= Seq::<(Seq<char>, JVal)>::empty());
    }
    let mut i: usize = 0;
    while i < fields.len()
        invariant
            i <= fields@.len(),
            strings_view(out@) == spec_detect(fields_view(fields@).subrange(0, i as int)),
        decreases fields@.len() - i,
    {
        let ghost fv = fields_view(fields@);
        let ghost head = spec_detect_head(fv[i as int]);
        let pair = &fields[i];
        match &pair.1 {
            Json::Obj(nested) => {
                if nested.len() > 0 {
                    let sub = detect_nested_json(nested);
                    let mut j: usize = 0;
                    proof {
                        assert(spec_detect(fields_view(nested@)).subrange(0, 0) =~= Seq::<
                            Seq<char>,
                        >::empty());
                    }
                    while j < sub.len()
                        invariant
                            j <= sub@.len(),
                            strings_view(sub@) == spec_detect(fields_view(nested@)),
                            head == spec_detect(fields_view(nested@)).map_values(
                                |s: Seq<char>| fields@[i as int].0@ + "."@ + s,
                            ),
                            i < fields@.len(),
                            pair.0@ == fields@[i as int].0@,
                            strings_view(out@) == spec_detect(
                                fields_view(fields@).subrange(0, i as int),
                            ) + head.subrange(0, j as int),
                        decreases sub@.len() - j,
                    {
                        let mut line = pair.0.clone();
                        line.append(".");
                        line.append(sub[j].as_str());
                        let ghost out0 = out@;
                        let ghost linev = line@;
                        out.push(line);
                        proof {
                            assert(strings_view(out@) =~= strings_view(out0).push(linev));
                            assert(strings_view(sub@)[j as int] == sub@[j as int]@);
                            assert(sub@[j as int]@ == spec_detect(fields_view(nested@))[j as int]);
                            assert(head[j as int] == fields@[i as int].0@ + "."@ + spec_detect(
                                fields_view(nested@),
                            )[j as int]);
                            assert(linev == (fields@[i as int].0@ + "."@) + sub@[j as int]@);
                            assert(linev == head[j as int]);
                            assert(head.subrange(0, j + 1) =~= head.subrange(0, j as int).push(
                                head[j as int],
                            ));
                            assert(strings_view(out@) =~= spec_detect(
                                fields_view(fields@).subrange(0, i as int),
                            ) + head.subrange(0, j + 1));
                        }
                        j = j + 1;
                    }
                    proof {
                        assert(head.subrange(0, head.len() as int) =~= head);
                    }
                } else {
                    out.push(pair.0.clone());
                    proof {
                        assert(fv[i as int].1 == view_json(fields@[i as int].1));
                        assert(strings_view(out@) =~= spec_detect(
                            fields_view(fields@).subrange(0, i as int),
                        ) + head);
                    }
                }
            },
            _ => {
                out.push(pair.0.clone());
                proof {
                    assert(fv[i as int].1 == view_json(fields@[i as int].1));
                    assert(strings_view(out@) =~= spec_detect(
                        fields_view(fields@).subrange(0, i as int),
                    ) + head);
                }
            },
        }
        proof {
            lemma_detect_snoc(fields_view(fields@), i as int);
        }
        i = i + 1;
    }
    proof {
        assert(fields_view(fields@).subrange(0, fields@.len() as int) =~= fields_view(fields@));
    }
    out
}

} // verus!
