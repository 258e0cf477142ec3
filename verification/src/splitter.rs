//! The chunk splitter: partitions a top-level JSON array into contiguous
//! chunks of a bounded size, and lays out the chunk files' names from the
//! source file's path. Reading the source file and writing the chunk files
//! is the caller's business; the library computes everything in between.

use crate::codec::{parse_json, render_json, spec_parse_json, spec_render_json};
use crate::json::{elems_view, JVal, Json};
use crate::text::{spec_digits, u64_string};
use vstd::prelude::*;
use vstd::string::*;

verus! {

/// The contiguous chunks of `s`, each of length `size` except possibly the
/// last, in order.
pub open spec fn spec_chunks<A>(s: Seq<A>, size: int) -> Seq<Seq<A>>
    decreases s.len(),
{
    if s.len() == 0 || size < 1 {
        Seq::empty()
    } else if s.len() <= size {
        seq![s]
    } else {
        seq![s.subrange(0, size)] + spec_chunks(s.subrange(size, s.len() as int), size)
    }
}

/// Concatenating the chunks of `s`, in chunk order, reconstructs `s`
/// exactly.
pub proof fn lemma_chunks_flatten<A>(s: Seq<A>, size: int)
    requires
        size >= 1,
    ensures
        spec_chunks(s, size).flatten() == s,
    decreases s.len(),
{
    if s.len() == 0 {
        assert(spec_chunks(s, size).flatten() =~= s);
    } else if s.len() <= size {
        spec_chunks(s, size).lemma_flatten_one_element();
        assert(spec_chunks(s, size).flatten() =~= s);
    } else {
        let head = s.subrange(0, size);
        let tail = s.subrange(size, s.len() as int);
        lemma_chunks_flatten(tail, size);
        let all = spec_chunks(s, size);
        assert(all.drop_first() =~= spec_chunks(tail, size));
        assert(all.flatten() == all.first() + all.drop_first().flatten());
        assert(all.flatten() =~= s);
    }
}

/// Every chunk of `s` but the last has exactly `size` elements; the last
/// has `s.len() % size` (or `size`, where `size` divides evenly); an empty
/// `s` has no chunks.
pub proof fn lemma_chunks_sizes<A>(s: Seq<A>, size: int)
    requires
        size >= 1,
    ensures
        s.len() == 0 ==> spec_chunks(s, size).len() == 0,
        s.len() > 0 ==> spec_chunks(s, size).len() >= 1,
        forall|i: int|
            0 <= i < spec_chunks(s, size).len() - 1 ==> (#[trigger] spec_chunks(s, size)[i]).len()
                == size,
        s.len() > 0 ==> spec_chunks(s, size).last().len() == (if s.len() as int % size == 0 {
            size
        } else {
            s.len() as int % size
        }),
    decreases s.len(),
{
    if s.len() == 0 {
    } else if s.len() <= size {
        if s.len() < size {
            assert(s.len() as int % size == s.len() as int) by (nonlinear_arith)
                requires
                    0 < s.len() < size,
            ;
        } else {
            assert(s.len() as int % size == 0) by (nonlinear_arith)
                requires
                    s.len() == size && size >= 1,
            ;
        }
    } else {
        let tail = s.subrange(size, s.len() as int);
        lemma_chunks_sizes(tail, size);
        assert(tail.len() as int % size == s.len() as int % size) by (nonlinear_arith)
            requires
                size >= 1 && tail.len() == s.len() - size,
        ;
        let all = spec_chunks(s, size);
        assert(forall|i: int|
            0 <= i < all.len() - 1 ==> (#[trigger] all[i]).len() == size) by {
            assert(forall|i: int|
                1 <= i < all.len() ==> all[i] == #[trigger] spec_chunks(tail, size)[i - 1]);
        }
        assert(all.last() == spec_chunks(tail, size).last());
    }
}

/// Splits `v` into contiguous chunks of at most `size` elements, keeping
/// the original order; every chunk but the last is full.
pub fn chunk_vec<T>(v: Vec<T>, size: usize) -> (r: Vec<Vec<T>>)
    requires
        size >= 1,
    ensures
        r@.map_values(|c: Vec<T>| c@) == spec_chunks(v@, size as int),
    decreases v@.len(),
{
    let ghost orig = v@;
    let mut out: Vec<Vec<T>> = Vec::new();
    if v.len() == 0 {
        proof {
            assert(out@.map_values(|c: Vec<T>| c@) =~= spec_chunks(orig, size as int));
        }
        return out;
    }
    let mut head = v;
    if head.len() > size {
        let tail = head.split_off(size);
        let mut rest = chunk_vec(tail, size);
        let ghost restv = rest@;
        out.push(head);
        out.append(&mut rest);
        proof {
            assert(out@.map_values(|c: Vec<T>| c@) =~= seq![orig.subrange(0, size as int)]
                + restv.map_values(|c: Vec<T>| c@));
            assert(out@.map_values(|c: Vec<T>| c@) =~= spec_chunks(orig, size as int));
        }
    } else {
        out.push(head);
        proof {
            assert(out@.map_values(|c: Vec<T>| c@) =~= spec_chunks(orig, size as int));
        }
    }
    out
}

/// The index of the last `.` in `s`, if any.
pub open spec fn spec_last_dot(s: Seq<char>) -> Option<int>
    decreases s.len(),
{
    if s.len() == 0 {
        None
    } else if s[s.len() - 1] == '.' {
        Some(s.len() - 1)
    } else {
        spec_last_dot(s.subrange(0, s.len() - 1))
    }
}

proof fn lemma_last_dot_at(s: Seq<char>, k: int)
    requires
        0 <= k < s.len(),
        s[k] == '.',
        forall|j: int| k < j < s.len() ==> s[j] != '.',
    ensures
        spec_last_dot(s) == Some(k),
    decreases s.len(),
{
    if k == s.len() - 1 {
    } else {
        let t = s.subrange(0, s.len() - 1);
        lemma_last_dot_at(t, k);
    }
}

proof fn lemma_last_dot_none(s: Seq<char>)
    requires
        forall|j: int| 0 <= j < s.len() ==> s[j] != '.',
    ensures
        spec_last_dot(s) is None,
    decreases s.len(),
{
    if s.len() > 0 {
        lemma_last_dot_none(s.subrange(0, s.len() - 1));
    }
}

/// The position of the last `.` of `s`, if any.
fn last_dot(s: &str) -> (r: Option<usize>)
    ensures
        (match spec_last_dot(s@) {
            Some(k) => r matches Some(i) && i as int == k && 0 <= k < s@.len(),
            None => r is None,
        }),
{
    let n = s.unicode_len();
    let mut i = n;
    while i > 0
        invariant
            i <= n,
            n == s@.len(),
            forall|j: int| i <= j < n ==> s@[j] != '.',
        decreases i,
    {
        i = i - 1;
        if s.get_char(i) == '.' {
            proof {
                lemma_last_dot_at(s@, i as int);
            }
            return Some(i);
        }
    }
    proof {
        lemma_last_dot_none(s@);
    }
    None
}

/// What splitting cannot work on: a source text that is not JSON (the
/// payload carries the parser's message), a JSON text whose top level is
/// not an array, or a source path without a `.`-separated extension.
#[derive(Debug, PartialEq)]
pub enum SplitError {
    NotJson(String),
    NotArray,
    NoExtension,
}

/// The splitter's output: the directory to create, and for each chunk the
/// file path and the chunk's JSON text, in chunk order.
#[derive(Debug, PartialEq)]
pub struct SplitPlan {
    pub dir: String,
    pub files: Vec<(String, String)>,
}

proof fn lemma_chunks_view(s: Seq<Json>, size: int)
    requires
        size >= 1,
    ensures
        spec_chunks(elems_view(s), size).len() == spec_chunks(s, size).len(),
        forall|i: int|
            0 <= i < spec_chunks(s, size).len() ==> #[trigger] spec_chunks(elems_view(s), size)[i]
                == elems_view(spec_chunks(s, size)[i]),
    decreases s.len(),
{
    if s.len() == 0 {
    } else if s.len() <= size {
        assert(spec_chunks(elems_view(s), size) =~= seq![elems_view(s)]);
    } else {
        let tail = s.subrange(size, s.len() as int);
        lemma_chunks_view(tail, size);
        assert(elems_view(s).subrange(size, s.len() as int) =~= elems_view(tail));
        assert(elems_view(s).subrange(0, size) =~= elems_view(s.subrange(0, size)));
        assert(forall|i: int|
            1 <= i < spec_chunks(s, size).len() ==> #[trigger] spec_chunks(s, size)[i]
                == spec_chunks(tail, size)[i - 1]);
        assert(forall|i: int|
            1 <= i < spec_chunks(elems_view(s), size).len() ==> #[trigger] spec_chunks(
                elems_view(s),
                size,
            )[i] == spec_chunks(elems_view(tail), size)[i - 1]);
    }
}

/// The name of chunk `i`: `dir`, a slash, `i` in decimal, a dot, `ext`.
pub open spec fn spec_chunk_name(dir: Seq<char>, ext: Seq<char>, i: int) -> Seq<char> {
    dir + "/"@ + spec_digits(i as nat) + "."@ + ext
}

fn chunk_name(dir: &String, ext: &str, i: usize) -> (r: String)
    ensures
        r@ == spec_chunk_name(dir@, ext@, i as int),
{
    let mut out = dir.clone();
    out.append("/");
    let num = u64_string(i as u64);
    out.append(num.as_str());
    out.append(".");
    out.append(ext);
    out
}

/// Plans the split of one source file: `text` must hold a top-level JSON
/// array; it is cut into chunks of at most `split_size` elements, one
/// JSON-array text per chunk, and each chunk is assigned the file name
/// `<dir>/<chunk index>.<extension>`, where `dir` is `filepath` with its
/// extension dropped. Nothing is written: the caller writes the files and
/// must treat a partial run as incomplete.
pub fn plan_split(filepath: &str, text: &str, split_size: usize) -> (r: Result<
    SplitPlan,
    SplitError,
>)
    requires
        split_size >= 1,
    ensures
        spec_parse_json(text@) is None ==> (r matches Err(e) && e matches SplitError::NotJson(_)),
        (match spec_parse_json(text@) {
            Some(m) => {
                &&& !(m is Arr) ==> r == Err::<SplitPlan, SplitError>(SplitError::NotArray)
                &&& (match m {
                    JVal::Arr(elems) => (match spec_last_dot(filepath@) {
                        None => r == Err::<SplitPlan, SplitError>(SplitError::NoExtension),
                        Some(k) => r matches Ok(plan) && {
                            let dir = filepath@.subrange(0, k);
                            let ext = filepath@.subrange(k + 1, filepath@.len() as int);
                            let chunks = spec_chunks(elems, split_size as int);
                            &&& plan.dir@ == dir
                            &&& plan.files@.len() == chunks.len()
                            &&& forall|i: int|
                                0 <= i < chunks.len() ==> (#[trigger] plan.files@[i]).0@
                                    == spec_chunk_name(dir, ext, i)
                            &&& forall|i: int|
                                0 <= i < chunks.len() ==> (#[trigger] plan.files@[i]).1@
                                    == spec_render_json(JVal::Arr(chunks[i]))
                        },
                    }),
                    _ => true,
                })
            },
            None => true,
        }),
{
    let parsed = match parse_json(text) {
        Ok(j) => j,
        Err(m) => {
            return Err(SplitError::NotJson(m));
        },
    };
    let items = match parsed {
        Json::Arr(items) => items,
        _ => {
            return Err(SplitError::NotArray);
        },
    };
    let ghost elems = elems_view(items@);
    let k = match last_dot(filepath) {
        Some(k) => k,
        None => {
            return Err(SplitError::NoExtension);
        },
    };
    let n = filepath.unicode_len();
    let dir = filepath.substring_char(0, k).to_owned();
    let ext = filepath.substring_char(k + 1, n);
    proof {
        lemma_chunks_view(items@, split_size as int);
    }
    let mut chunks = chunk_vec(items, split_size);
    let ghost chunksv = chunks@.map_values(|c: Vec<Json>| c@);
    let mut files: Vec<(String, String)> = Vec::new();
    let mut i: usize = 0;
    let total = chunks.len();
    proof {
        assert(chunksv.subrange(0, chunksv.len() as int) =~= chunksv);
    }
    while i < total
        invariant
            i <= total,
            total == chunksv.len(),
            chunks@.map_values(|c: Vec<Json>| c@) =~= chunksv.subrange(
                i as int,
                chunksv.len() as int,
            ),
            files@.len() == i,
            dir@ == filepath@.subrange(0, spec_last_dot(filepath@)->0),
            ext@ == filepath@.subrange(
                spec_last_dot(filepath@)->0 + 1,
                filepath@.len() as int,
            ),
            forall|j: int|
                0 <= j < i ==> (#[trigger] files@[j]).0@ == spec_chunk_name(dir@, ext@, j),
            forall|j: int|
                0 <= j < i ==> (#[trigger] files@[j]).1@ == spec_render_json(
                    JVal::Arr(elems_view(chunksv[j])),
                ),
        decreases total - i,
    {
        proof {
            assert(chunks@.map_values(|c: Vec<Json>| c@).len() == chunks@.len());
        }
        let ghost cs0 = chunks@;
        let chunk = chunks.remove(0);
        proof {
            assert(cs0.map_values(|c: Vec<Json>| c@)[0] == chunk@);
            assert(chunk@ == chunksv[i as int]);
            assert(chunks@ == cs0.remove(0));
            assert forall|j: int| 0 <= j < chunks@.len() implies (#[trigger] chunks@[j])@
                == chunksv[i as int + 1 + j] by {
                assert(chunks@[j] == cs0[j + 1]);
                assert(cs0.map_values(|c: Vec<Json>| c@)[j + 1] == cs0[j + 1]@);
            }
            assert(chunks@.map_values(|c: Vec<Json>| c@) =~= chunksv.subrange(
                i as int + 1,
                chunksv.len() as int,
            ));
        }
        let name = chunk_name(&dir, ext, i);
        let body_value = Json::Arr(chunk);
        let body = render_json(&body_value);
        files.push((name, body));
        i = i + 1;
    }
    Ok(SplitPlan { dir, files })
}

} // verus!
