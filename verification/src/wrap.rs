use vstd::prelude::*;
use crate::chars::{append_seq, append_sub, chars_of, string_of, subvec};
use crate::scan::{find_line_end, is_ws_char, line_end, ws_char};

verus! {

// Paragraph filling and line indentation. Filling delegates to an outside
// crate and is only named; indentation is the crate's own, line by line:
// each line gets the prefix, except that a line of nothing but whitespace
// gets the prefix with its trailing whitespace removed (for the indent
// prefixes used here, that is the empty string), so that no line of the
// output ends in trailing whitespace it did not already have.

/// What filling a text to width 81 produces: a function of the text alone.
pub uninterp spec fn filled_of(s: Seq<char>) -> Seq<char>;

/// Relies on textwrap::fill: re-wraps the text so that no line exceeds the
/// width; the result depends on the input text alone.
#[verifier::external_body]
fn fill81(s: &str) -> (r: String)
    ensures
        r@ == filled_of(s@),
{
    textwrap::fill(s, 81)
}

/// Fill a paragraph of documentation prose to the fixed width.
pub fn wrap(string: &str) -> (r: String)
    ensures
        r@ == filled_of(string@),
{
    fill81(string)
}

/// `p` without its trailing whitespace.
pub open spec fn trim_end_ws(p: Seq<char>) -> Seq<char>
    decreases p.len(),
{
    if p.len() == 0 {
        p
    } else if is_ws_char(p[p.len() - 1]) {
        trim_end_ws(p.drop_last())
    } else {
        p
    }
}

fn trim_end_vec(p: &Vec<char>) -> (r: Vec<char>)
    ensures
        r@ == trim_end_ws(p@),
{
    let mut k: usize = p.len();
    proof {
        assert(p@.subrange(0, k as int) =~= p@);
    }
    while k > 0 && ws_char(p[k - 1])
        invariant
            k <= p@.len(),
            trim_end_ws(p@) == trim_end_ws(p@.subrange(0, k as int)),
        decreases k,
    {
        proof {
            assert(p@.subrange(0, k as int).drop_last() =~= p@.subrange(0, k - 1));
        }
        k -= 1;
    }
    let r = subvec(p, 0, k);
    proof {
        if k > 0 {
            assert(p@.subrange(0, k as int)[k - 1] == p@[k - 1]);
        }
    }
    r
}

/// Whether every character of `s[i..e]` is whitespace.
pub open spec fn all_ws(s: Seq<char>, i: int, e: int) -> bool {
    forall|k: int| i <= k < e ==> is_ws_char(#[trigger] s[k])
}

fn ws_range(v: &Vec<char>, i: usize, e: usize) -> (r: bool)
    requires
        i <= e <= v@.len(),
    ensures
        r == all_ws(v@, i as int, e as int),
{
    let mut k: usize = i;
    while k < e
        invariant
            i <= k <= e <= v@.len(),
            forall|j: int| i <= j < k ==> is_ws_char(#[trigger] v@[j]),
        decreases e - k,
    {
        if !ws_char(v[k]) {
            return false;
        }
        k += 1;
    }
    true
}

/// The text from line start `i` on, each line prefixed: whitespace-only
/// lines get the trimmed prefix, other lines the full prefix.
pub open spec fn indent_from(s: Seq<char>, p: Seq<char>, i: int) -> Seq<char>
    decreases s.len() - i,
{
    if i < 0 || i >= s.len() {
        Seq::empty()
    } else {
        let e = line_end(s, i);
        let pref = if all_ws(s, i, e) {
            trim_end_ws(p)
        } else {
            p
        };
        if i <= e < s.len() {
            pref + s.subrange(i, e) + seq!['\n'] + indent_from(s, p, e + 1)
        } else {
            pref + s.subrange(i, e)
        }
    }
}

pub open spec fn indent_spec(s: Seq<char>, p: Seq<char>) -> Seq<char> {
    indent_from(s, p, 0)
}

pub fn append_indented(
    out: &mut Vec<char>,
    v: &Vec<char>,
    pref: &Vec<char>,
    trimmed: &Vec<char>,
    i: usize,
)
    requires
        i <= v@.len(),
        trimmed@ == trim_end_ws(pref@),
    ensures
        final(out)@ == old(out)@ + indent_from(v@, pref@, i as int),
    decreases v@.len() - i,
{
    if i >= v.len() {
        proof {
            assert(old(out)@ + indent_from(v@, pref@, i as int) =~= old(out)@);
        }
        return ;
    }
    let e = find_line_end(v, i);
    let ws = ws_range(v, i, e);
    if ws {
        append_seq(out, trimmed);
    } else {
        append_seq(out, pref);
    }
    append_sub(out, v, i, e);
    if e < v.len() {
        out.push('\n');
        let ghost mid = out@;
        append_indented(out, v, pref, trimmed, e + 1);
        proof {
            let prefu = if all_ws(v@, i as int, e as int) {
                trim_end_ws(pref@)
            } else {
                pref@
            };
            assert(out@ =~= old(out)@ + (prefu + v@.subrange(i as int, e as int) + seq!['\n']
                + indent_from(v@, pref@, e + 1)));
        }
    } else {
        proof {
            let prefu = if all_ws(v@, i as int, e as int) {
                trim_end_ws(pref@)
            } else {
                pref@
            };
            assert(out@ =~= old(out)@ + (prefu + v@.subrange(i as int, e as int)));
        }
    }
}

/// Indent a Vec of characters by four spaces.
pub fn indent_vec(v: &Vec<char>) -> (r: Vec<char>)
    ensures
        r@ == indent_spec(v@, "    "@),
{
    let pref = chars_of("    ");
    let trimmed = trim_end_vec(&pref);
    let mut out: Vec<char> = Vec::new();
    append_indented(&mut out, v, &pref, &trimmed, 0);
    proof {
        assert(Seq::<char>::empty() + indent_from(v@, "    "@, 0) =~= indent_from(v@, "    "@, 0));
    }
    out
}

/// Indent each line of `s` by four spaces; whitespace-only lines are kept
/// without the prefix.
pub fn indent(s: &str) -> (r: String)
    ensures
        r@ == indent_spec(s@, "    "@),
{
    let v = chars_of(s);
    let out = indent_vec(&v);
    string_of(&out)
}

} // verus!
