//! Small verified text helpers: decimal rendering and quoting, used when the
//! library builds file names, diagnostic lines and error messages.

use vstd::prelude::*;
use vstd::string::*;

verus! {

/// The models of a vector of strings, in order.
pub open spec fn strings_view(s: Seq<String>) -> Seq<Seq<char>> {
    s.map_values(|x: String| x@)
}

/// The decimal digit character for `d`.
pub open spec fn spec_digit_char(d: nat) -> char {
    if d == 0 {
        '0'
    } else if d == 1 {
        '1'
    } else if d == 2 {
        '2'
    } else if d == 3 {
        '3'
    } else if d == 4 {
        '4'
    } else if d == 5 {
        '5'
    } else if d == 6 {
        '6'
    } else if d == 7 {
        '7'
    } else if d == 8 {
        '8'
    } else {
        '9'
    }
}

/// The decimal rendering of `n`, most significant digit first, no sign and
/// no leading zeros (`0` renders as "0").
pub open spec fn spec_digits(n: nat) -> Seq<char>
    decreases n,
{
    if n < 10 {
        seq![spec_digit_char(n)]
    } else {
        spec_digits(n / 10) + seq![spec_digit_char(n % 10)]
    }
}

fn digit_str(d: u64) -> (s: &'static str)
    requires
        d < 10,
    ensures
        s@ == seq![spec_digit_char(d as nat)],
{
    proof {
        reveal_strlit("0");
        reveal_strlit("1");
        reveal_strlit("2");
        reveal_strlit("3");
        reveal_strlit("4");
        reveal_strlit("5");
        reveal_strlit("6");
        reveal_strlit("7");
        reveal_strlit("8");
        reveal_strlit("9");
    }
    let r = match d {
        0 => "0",
        1 => "1",
        2 => "2",
        3 => "3",
        4 => "4",
        5 => "5",
        6 => "6",
        7 => "7",
        8 => "8",
        _ => "9",
    };
    proof {
        assert(r@ =~= seq![spec_digit_char(d as nat)]);
    }
    r
}

/// Renders `n` in decimal.
pub fn u64_string(n: u64) -> (s: String)
    ensures
        s@ == spec_digits(n as nat),
    decreases n,
{
    if n < 10 {
        digit_str(n).to_owned()
    } else {
        let mut s = u64_string(n / 10);
        s.append(digit_str(n % 10));
        s
    }
}

/// A quoted character: backslashes and double quotes get a leading
/// backslash, every other character stands as it is.
pub open spec fn spec_escape_char(c: char) -> Seq<char> {
    if c == '\\' || c == '"' {
        seq!['\\', c]
    } else {
        seq![c]
    }
}

/// The text with backslashes and double quotes escaped.
pub open spec fn spec_escaped(s: Seq<char>) -> Seq<char> {
    s.map_values(|c: char| spec_escape_char(c)).flatten()
}

/// The text wrapped in double quotes, backslashes and quotes escaped.
pub open spec fn spec_quoted(s: Seq<char>) -> Seq<char> {
    seq!['"'] + spec_escaped(s) + seq!['"']
}

/// Wraps the text in double quotes, escaping backslashes and quotes.
pub fn quoted(s: &str) -> (r: String)
    ensures
        r@ == spec_quoted(s@),
{
    proof {
        reveal_strlit("\"");
        reveal_strlit("\\");
    }
    let n = s.unicode_len();
    let mut out = "\"".to_owned();
    proof {
        assert(s@.subrange(0, 0).map_values(|c: char| spec_escape_char(c)) =~= Seq::<
            Seq<char>,
        >::empty());
        Seq::<Seq<char>>::empty().lemma_flatten_one_element();
        assert(out@ =~= seq!['"'] + spec_escaped(s@.subrange(0, 0)));
    }
    let mut i: usize = 0;
    while i < n
        invariant
            i <= n,
            n == s@.len(),
            out@ == seq!['"'] + spec_escaped(s@.subrange(0, i as int)),
        decreases n - i,
    {
        proof {
            reveal_strlit("\\");
        }
        let c = s.get_char(i);
        if c == '\\' || c == '"' {
            out.append("\\");
        }
        let piece = s.substring_char(i, i + 1);
        out.append(piece);
        proof {
            let mapped = s@.subrange(0, i as int).map_values(|x: char| spec_escape_char(x));
            mapped.lemma_flatten_push(spec_escape_char(s@[i as int]));
            assert(s@.subrange(0, i + 1).map_values(|x: char| spec_escape_char(x)) =~= mapped.push(
                spec_escape_char(s@[i as int]),
            ));
            assert(piece@ =~= seq![s@[i as int]]);
            assert(out@ =~= seq!['"'] + spec_escaped(s@.subrange(0, i + 1)));
        }
        i = i + 1;
    }
    out.append("\"");
    proof {
        assert(s@.subrange(0, s@.len() as int) =~= s@);
        assert(out@ =~= spec_quoted(s@));
    }
    out
}

} // verus!
