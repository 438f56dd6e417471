use vstd::prelude::*;
use crate::ansi::{append_colored_str, append_colored_sub, colored, Color};
use crate::chars::{
    append_str, chars_of, lemma_replace_absent, replace_all, replace_all_spec, string_of, subvec,
};
use crate::scan::{
    at_line_start, class_spec, find_line_end, lemma_scan_end_eq, line_end, line_start, scan_end,
    scan_while, CharClass,
};

verus! {

// The inline colorization pipeline: eight ordered whole-buffer rewrite
// passes. Each pass scans left to right; at each position it either finds a
// pattern occurrence, emits its colored rewrite and resumes after it, or
// copies one character. Later passes see the output of earlier ones, so the
// pass order below is a contract, not an accident.

// ---------------------------------------------------------------- quotes

pub open spec fn is_quote(c: char) -> bool {
    c == '"' || c == '\'' || c == '`'
}

pub open spec fn quote_free(q: char) -> spec_fn(char) -> bool {
    |c: char| c != q && c != '\n'
}

/// A single-line quoted span at `i`: a quote character, at least one other
/// character on the same line, then the same quote character again.
pub open spec fn quote_match_at(s: Seq<char>, i: int) -> int {
    if 0 <= i < s.len() && is_quote(s[i]) {
        let e = scan_end(s, i + 1, quote_free(s[i]));
        if e < s.len() && s[e] == s[i] && e >= i + 2 {
            e + 1 - i
        } else {
            0
        }
    } else {
        0
    }
}

pub open spec fn quote_rw(s: Seq<char>, i: int, m: int) -> Seq<char> {
    colored(Color::Green, s.subrange(i, i + m))
}

pub open spec fn quote_from(s: Seq<char>, i: int) -> Seq<char>
    decreases s.len() - i,
{
    if i < 0 || i >= s.len() {
        Seq::empty()
    } else {
        let m = quote_match_at(s, i);
        if 1 <= m && i + m <= s.len() {
            quote_rw(s, i, m) + quote_from(s, i + m)
        } else {
            seq![s[i]] + quote_from(s, i + 1)
        }
    }
}

fn quote_try(v: &Vec<char>, i: usize) -> (m: usize)
    requires
        i < v@.len(),
    ensures
        m == quote_match_at(v@, i as int),
        m >= 1 ==> i + m <= v@.len(),
{
    let n = v.len();
    let q = v[i];
    if q == '"' || q == '\'' || q == '`' {
        let mut j: usize = i + 1;
        while j < n && v[j] != q && v[j] != '\n'
            invariant
                i + 1 <= j <= n,
                n == v@.len(),
                q == v@[i as int],
                forall|k: int| i + 1 <= k < j ==> (#[trigger] v@[k]) != q && v@[k] != '\n',
            decreases n - j,
        {
            j += 1;
        }
        proof {
            lemma_scan_end_eq(v@, i + 1, j as int, quote_free(q));
        }
        if j < n && v[j] == q && j >= i + 2 {
            j + 1 - i
        } else {
            0
        }
    } else {
        0
    }
}

// --------------------------------------------------------------- headers

/// A section header line: at a line start, one or two `#`, a space, and at
/// least one more character before the end of the line.
pub open spec fn header_match_at(s: Seq<char>, i: int) -> int {
    if 0 <= i < s.len() && at_line_start(s, i) && s[i] == '#' {
        let h: int = if i + 1 < s.len() && s[i + 1] == '#' {
            2
        } else {
            1
        };
        if i + h < s.len() && s[i + h] == ' ' {
            let e = line_end(s, i + h + 1);
            if e > i + h + 1 {
                e - i
            } else {
                0
            }
        } else {
            0
        }
    } else {
        0
    }
}

pub open spec fn header_rw(s: Seq<char>, i: int, m: int) -> Seq<char> {
    colored(Color::Yellow, s.subrange(i, i + m))
}

pub open spec fn header_from(s: Seq<char>, i: int) -> Seq<char>
    decreases s.len() - i,
{
    if i < 0 || i >= s.len() {
        Seq::empty()
    } else {
        let m = header_match_at(s, i);
        if 1 <= m && i + m <= s.len() {
            header_rw(s, i, m) + header_from(s, i + m)
        } else {
            seq![s[i]] + header_from(s, i + 1)
        }
    }
}

fn header_try(v: &Vec<char>, i: usize) -> (m: usize)
    requires
        i < v@.len(),
    ensures
        m == header_match_at(v@, i as int),
        m >= 1 ==> i + m <= v@.len(),
{
    let n = v.len();
    if line_start(v, i) && v[i] == '#' {
        let h: usize = if i + 1 < n && v[i + 1] == '#' {
            2
        } else {
            1
        };
        if i + h < n && v[i + h] == ' ' {
            let e = find_line_end(v, i + h + 1);
            if e > i + h + 1 {
                e - i
            } else {
                0
            }
        } else {
            0
        }
    } else {
        0
    }
}

// ------------------------------------------------------------------ URLs

/// A bare URL: `http`, an optional `s`, `://`, then at least one
/// non-whitespace character; the match runs to the first whitespace.
pub open spec fn url_match_at(s: Seq<char>, i: int) -> int {
    if 0 <= i && i + 3 < s.len() && s[i] == 'h' && s[i + 1] == 't' && s[i + 2] == 't' && s[i + 3]
        == 'p' {
        let b: int = if i + 4 < s.len() && s[i + 4] == 's' {
            i + 5
        } else {
            i + 4
        };
        if b + 2 < s.len() && s[b] == ':' && s[b + 1] == '/' && s[b + 2] == '/' {
            let e = scan_end(s, b + 3, class_spec(CharClass::NonWs));
            if e > b + 3 {
                e - i
            } else {
                0
            }
        } else {
            0
        }
    } else {
        0
    }
}

pub open spec fn url_rw(s: Seq<char>, i: int, m: int) -> Seq<char> {
    colored(Color::Blue, s.subrange(i, i + m))
}

pub open spec fn url_from(s: Seq<char>, i: int) -> Seq<char>
    decreases s.len() - i,
{
    if i < 0 || i >= s.len() {
        Seq::empty()
    } else {
        let m = url_match_at(s, i);
        if 1 <= m && i + m <= s.len() {
            url_rw(s, i, m) + url_from(s, i + m)
        } else {
            seq![s[i]] + url_from(s, i + 1)
        }
    }
}

fn url_try(v: &Vec<char>, i: usize) -> (m: usize)
    requires
        i < v@.len(),
    ensures
        m == url_match_at(v@, i as int),
        m >= 1 ==> i + m <= v@.len(),
{
    let n = v.len();
    if n - i > 3 && v[i] == 'h' && v[i + 1] == 't' && v[i + 2] == 't' && v[i + 3] == 'p' {
        let b: usize = if i + 4 < n && v[i + 4] == 's' {
            i + 5
        } else {
            i + 4
        };
        if b < n && n - b > 2 && v[b] == ':' && v[b + 1] == '/' && v[b + 2] == '/' {
            let e = scan_while(v, b + 3, CharClass::NonWs);
            if e > b + 3 {
                e - i
            } else {
                0
            }
        } else {
            0
        }
    } else {
        0
    }
}

// ------------------------------------------------------- unary operators

/// A unary operator applied to the placeholder operand: `!x` or `-x`.
pub open spec fn unary_match_at(s: Seq<char>, i: int) -> int {
    if 0 <= i && i + 1 < s.len() && (s[i] == '!' || s[i] == '-') && s[i + 1] == 'x' {
        2
    } else {
        0
    }
}

pub open spec fn unary_rw(s: Seq<char>, i: int, m: int) -> Seq<char> {
    colored(Color::Cyan, s.subrange(i, i + 1)) + colored(Color::Red, "x"@)
}

pub open spec fn unary_from(s: Seq<char>, i: int) -> Seq<char>
    decreases s.len() - i,
{
    if i < 0 || i >= s.len() {
        Seq::empty()
    } else {
        let m = unary_match_at(s, i);
        if 1 <= m && i + m <= s.len() {
            unary_rw(s, i, m) + unary_from(s, i + m)
        } else {
            seq![s[i]] + unary_from(s, i + 1)
        }
    }
}

fn unary_try(v: &Vec<char>, i: usize) -> (m: usize)
    requires
        i < v@.len(),
    ensures
        m == unary_match_at(v@, i as int),
        m >= 1 ==> i + m <= v@.len(),
{
    let n = v.len();
    if i + 1 < n && (v[i] == '!' || v[i] == '-') && v[i + 1] == 'x' {
        2
    } else {
        0
    }
}

// ------------------------------------------------------ binary operators

pub open spec fn cat1(s: Seq<char>, p: int, a: char) -> bool {
    0 <= p < s.len() && s[p] == a
}

pub open spec fn cat2(s: Seq<char>, p: int, a: char, b: char) -> bool {
    0 <= p && p + 1 < s.len() && s[p] == a && s[p + 1] == b
}

pub open spec fn cat3(s: Seq<char>, p: int, a: char, b: char, c: char) -> bool {
    0 <= p && p + 2 < s.len() && s[p] == a && s[p + 1] == b && s[p + 2] == c
}

pub open spec fn cat_not_in(s: Seq<char>, p: int) -> bool {
    0 <= p && p + 5 < s.len() && s[p] == 'n' && s[p + 1] == 'o' && s[p + 2] == 't' && s[p + 3]
        == ' ' && s[p + 4] == 'i' && s[p + 5] == 'n'
}

/// The length of the binary operator starting at `p`, trying the
/// alternatives in the pattern's order, or 0 when none starts there.
pub open spec fn binop_len(s: Seq<char>, p: int) -> int {
    if cat2(s, p, '=', '=') {
        2
    } else if cat2(s, p, '!', '=') {
        2
    } else if cat2(s, p, '<', '=') {
        2
    } else if cat1(s, p, '<') {
        1
    } else if cat2(s, p, '>', '=') {
        2
    } else if cat1(s, p, '>') {
        1
    } else if cat2(s, p, '&', '&') {
        2
    } else if cat2(s, p, '|', '|') {
        2
    } else if cat3(s, p, 'a', 'n', 'd') {
        3
    } else if cat2(s, p, 'o', 'r') {
        2
    } else if cat_not_in(s, p) {
        6
    } else if cat2(s, p, 'i', 'n') {
        2
    } else if cat2(s, p, 'e', 'q') {
        2
    } else if cat2(s, p, 'n', 'e') {
        2
    } else if cat2(s, p, 'l', 't') {
        2
    } else if cat2(s, p, 'l', 'e') {
        2
    } else if cat2(s, p, 'g', 't') {
        2
    } else if cat2(s, p, 'g', 'e') {
        2
    } else if cat2(s, p, '/', '/') {
        2
    } else if cat2(s, p, '*', '*') {
        2
    } else if cat2(s, p, '+', '+') {
        2
    } else if cat1(s, p, '+') || cat1(s, p, '-') || cat1(s, p, '*') || cat1(s, p, '/') || cat1(
        s,
        p,
        '%',
    ) {
        1
    } else {
        0
    }
}

pub(crate) fn exec_cat1(v: &Vec<char>, p: usize, a: char) -> (r: bool)
    ensures
        r == cat1(v@, p as int, a),
{
    p < v.len() && v[p] == a
}

pub(crate) fn exec_cat2(v: &Vec<char>, p: usize, a: char, b: char) -> (r: bool)
    ensures
        r == cat2(v@, p as int, a, b),
{
    p < v.len() && p + 1 < v.len() && v[p] == a && v[p + 1] == b
}

pub(crate) fn exec_cat3(v: &Vec<char>, p: usize, a: char, b: char, c: char) -> (r: bool)
    ensures
        r == cat3(v@, p as int, a, b, c),
{
    p < v.len() && v.len() - p > 2 && v[p] == a && v[p + 1] == b && v[p + 2] == c
}

pub(crate) fn exec_cat_not_in(v: &Vec<char>, p: usize) -> (r: bool)
    ensures
        r == cat_not_in(v@, p as int),
{
    p < v.len() && v.len() - p > 5 && v[p] == 'n' && v[p + 1] == 'o' && v[p + 2] == 't' && v[p + 3]
        == ' ' && v[p + 4] == 'i' && v[p + 5] == 'n'
}

fn exec_binop_len(v: &Vec<char>, p: usize) -> (r: usize)
    ensures
        r == binop_len(v@, p as int),
{
    if exec_cat2(v, p, '=', '=') {
        2
    } else if exec_cat2(v, p, '!', '=') {
        2
    } else if exec_cat2(v, p, '<', '=') {
        2
    } else if exec_cat1(v, p, '<') {
        1
    } else if exec_cat2(v, p, '>', '=') {
        2
    } else if exec_cat1(v, p, '>') {
        1
    } else if exec_cat2(v, p, '&', '&') {
        2
    } else if exec_cat2(v, p, '|', '|') {
        2
    } else if exec_cat3(v, p, 'a', 'n', 'd') {
        3
    } else if exec_cat2(v, p, 'o', 'r') {
        2
    } else if exec_cat_not_in(v, p) {
        6
    } else if exec_cat2(v, p, 'i', 'n') {
        2
    } else if exec_cat2(v, p, 'e', 'q') {
        2
    } else if exec_cat2(v, p, 'n', 'e') {
        2
    } else if exec_cat2(v, p, 'l', 't') {
        2
    } else if exec_cat2(v, p, 'l', 'e') {
        2
    } else if exec_cat2(v, p, 'g', 't') {
        2
    } else if exec_cat2(v, p, 'g', 'e') {
        2
    } else if exec_cat2(v, p, '/', '/') {
        2
    } else if exec_cat2(v, p, '*', '*') {
        2
    } else if exec_cat2(v, p, '+', '+') {
        2
    } else if exec_cat1(v, p, '+') || exec_cat1(v, p, '-') || exec_cat1(v, p, '*') || exec_cat1(
        v,
        p,
        '/',
    ) || exec_cat1(v, p, '%') {
        1
    } else {
        0
    }
}

/// A binary operator between the placeholder operands: `x`, a space, an
/// operator from the fixed set, a space, then `y`.
pub open spec fn binary_match_at(s: Seq<char>, i: int) -> int {
    if 0 <= i && i + 1 < s.len() && s[i] == 'x' && s[i + 1] == ' ' {
        let l = binop_len(s, i + 2);
        if l > 0 && i + l + 3 < s.len() && s[i + l + 2] == ' ' && s[i + l + 3] == 'y' {
            l + 4
        } else {
            0
        }
    } else {
        0
    }
}

pub open spec fn binary_rw(s: Seq<char>, i: int, m: int) -> Seq<char> {
    colored(Color::Red, "x"@) + " "@ + colored(Color::Cyan, s.subrange(i + 2, i + m - 2)) + " "@
        + colored(Color::Red, "y"@)
}

pub open spec fn binary_from(s: Seq<char>, i: int) -> Seq<char>
    decreases s.len() - i,
{
    if i < 0 || i >= s.len() {
        Seq::empty()
    } else {
        let m = binary_match_at(s, i);
        if 1 <= m && i + m <= s.len() {
            binary_rw(s, i, m) + binary_from(s, i + m)
        } else {
            seq![s[i]] + binary_from(s, i + 1)
        }
    }
}

fn binary_try(v: &Vec<char>, i: usize) -> (m: usize)
    requires
        i < v@.len(),
    ensures
        m == binary_match_at(v@, i as int),
        m >= 1 ==> i + m <= v@.len(),
{
    let n = v.len();
    if i + 1 < n && v[i] == 'x' && v[i + 1] == ' ' {
        let l = exec_binop_len(v, i + 2);
        if l > 0 && l <= 6 && n - i > l + 3 && v[i + l + 2] == ' ' && v[i + l + 3] == 'y' {
            l + 4
        } else {
            0
        }
    } else {
        0
    }
}

// ----------------------------------------------------- pipeline operator

/// The pipeline idiom is a literal replacement: the pipe after the
/// `trim(name)` placeholder expression is highlighted.
pub open spec fn pipeline_all(s: Seq<char>) -> Seq<char> {
    replace_all_spec(s, "trim(name) |"@, "trim(name) "@ + colored(Color::Cyan, "|"@))
}

fn pipeline_pass(v: &Vec<char>) -> (r: Vec<char>)
    ensures
        r@ == pipeline_all(v@),
{
    let pat = chars_of("trim(name) |");
    let mut rep: Vec<char> = Vec::new();
    append_str(&mut rep, "trim(name) ");
    append_colored_str(&mut rep, "|", Color::Cyan);
    proof {
        assert(rep@ =~= "trim(name) "@ + colored(Color::Cyan, "|"@));
    }
    replace_all(v, &pat, &rep)
}

// --------------------------------------------------------------- slices

/// Index/slice syntax on the placeholder operand: `x[` then one or more
/// lower-case letters and colons, then `]`.
pub open spec fn slice_match_at(s: Seq<char>, i: int) -> int {
    if 0 <= i && i + 1 < s.len() && s[i] == 'x' && s[i + 1] == '[' {
        let e = scan_end(s, i + 2, class_spec(CharClass::SliceBody));
        if e > i + 2 && e < s.len() && s[e] == ']' {
            e + 1 - i
        } else {
            0
        }
    } else {
        0
    }
}

/// The colon-separated parts of the slice interior, each colored, with the
/// colons kept as they are.
pub open spec fn slice_inner(c: Seq<char>) -> Seq<char>
    decreases c.len(),
{
    let k = scan_end(c, 0, class_spec(CharClass::NotColon));
    if 0 <= k < c.len() {
        colored(Color::Cyan, c.subrange(0, k)) + seq![':'] + slice_inner(c.skip(k + 1))
    } else {
        colored(Color::Cyan, c)
    }
}

pub open spec fn slice_rw(s: Seq<char>, i: int, m: int) -> Seq<char> {
    colored(Color::Red, "x"@) + "["@ + slice_inner(s.subrange(i + 2, i + m - 1)) + "]"@
}

pub open spec fn slice_from(s: Seq<char>, i: int) -> Seq<char>
    decreases s.len() - i,
{
    if i < 0 || i >= s.len() {
        Seq::empty()
    } else {
        let m = slice_match_at(s, i);
        if 1 <= m && i + m <= s.len() {
            slice_rw(s, i, m) + slice_from(s, i + m)
        } else {
            seq![s[i]] + slice_from(s, i + 1)
        }
    }
}

fn slice_try(v: &Vec<char>, i: usize) -> (m: usize)
    requires
        i < v@.len(),
    ensures
        m == slice_match_at(v@, i as int),
        m >= 1 ==> i + m <= v@.len(),
{
    let n = v.len();
    if i + 1 < n && v[i] == 'x' && v[i + 1] == '[' {
        let e = scan_while(v, i + 2, CharClass::SliceBody);
        if e > i + 2 && e < n && v[e] == ']' {
            e + 1 - i
        } else {
            0
        }
    } else {
        0
    }
}

fn append_slice_inner(out: &mut Vec<char>, c: &Vec<char>)
    ensures
        final(out)@ == old(out)@ + slice_inner(c@),
    decreases c@.len(),
{
    let k = scan_while(c, 0, CharClass::NotColon);
    if k < c.len() {
        let ghost before = out@;
        append_colored_sub(out, c, 0, k, Color::Cyan);
        out.push(':');
        let rest = subvec(c, k + 1, c.len());
        proof {
            assert(rest@ =~= c@.skip(k + 1));
        }
        append_slice_inner(out, &rest);
        proof {
            assert(before + (colored(Color::Cyan, c@.subrange(0, k as int)) + seq![':']
                + slice_inner(c@.skip(k + 1))) =~= out@);
        }
    } else {
        proof {
            assert(c@.subrange(0, k as int) =~= c@);
        }
        append_colored_sub(out, c, 0, k, Color::Cyan);
    }
}

// ----------------------------------------------------------------- flags

/// A command-line flag token: `--` followed by at least one word or hyphen
/// character, taken as far as the run reaches.
pub open spec fn flag_match_at(s: Seq<char>, i: int) -> int {
    if 0 <= i && i + 1 < s.len() && s[i] == '-' && s[i + 1] == '-' {
        let e = scan_end(s, i + 2, class_spec(CharClass::Flag));
        if e > i + 2 {
            e - i
        } else {
            0
        }
    } else {
        0
    }
}

pub open spec fn flag_rw(s: Seq<char>, i: int, m: int) -> Seq<char> {
    colored(Color::Cyan, s.subrange(i, i + m))
}

pub open spec fn flag_from(s: Seq<char>, i: int) -> Seq<char>
    decreases s.len() - i,
{
    if i < 0 || i >= s.len() {
        Seq::empty()
    } else {
        let m = flag_match_at(s, i);
        if 1 <= m && i + m <= s.len() {
            flag_rw(s, i, m) + flag_from(s, i + m)
        } else {
            seq![s[i]] + flag_from(s, i + 1)
        }
    }
}

fn flag_try(v: &Vec<char>, i: usize) -> (m: usize)
    requires
        i < v@.len(),
    ensures
        m == flag_match_at(v@, i as int),
        m >= 1 ==> i + m <= v@.len(),
{
    let n = v.len();
    if i + 1 < n && v[i] == '-' && v[i + 1] == '-' {
        let e = scan_while(v, i + 2, CharClass::Flag);
        if e > i + 2 {
            e - i
        } else {
            0
        }
    } else {
        0
    }
}

// -------------------------------------------------------- the pass loops

pub fn quote_pass(v: &Vec<char>) -> (r: Vec<char>)
    ensures
        r@ == quote_from(v@, 0),
{
    let mut out: Vec<char> = Vec::new();
    proof {
        assert(out@ + quote_from(v@, 0) =~= quote_from(v@, 0));
    }
    let mut i: usize = 0;
    while i < v.len()
        invariant
            i <= v@.len(),
            quote_from(v@, 0) == out@ + quote_from(v@, i as int),
        decreases v@.len() - i,
    {
        let m = quote_try(v, i);
        let ghost before = out@;
        if m >= 1 {
            append_colored_sub(&mut out, v, i, i + m, Color::Green);
            proof {
                assert(quote_from(v@, i as int) == quote_rw(v@, i as int, m as int) + quote_from(
                    v@,
                    i + m,
                ));
                assert(before + (quote_rw(v@, i as int, m as int) + quote_from(v@, i + m)) =~= out@
                    + quote_from(v@, i + m));
            }
            i += m;
        } else {
            out.push(v[i]);
            proof {
                assert(quote_from(v@, i as int) == seq![v@[i as int]] + quote_from(v@, i + 1));
                assert(before + (seq![v@[i as int]] + quote_from(v@, i + 1)) =~= out@ + quote_from(
                    v@,
                    i + 1,
                ));
            }
            i += 1;
        }
    }
    proof {
        assert(out@ + quote_from(v@, v@.len() as int) =~= out@);
    }
    out
}

pub fn header_pass(v: &Vec<char>) -> (r: Vec<char>)
    ensures
        r@ == header_from(v@, 0),
{
    let mut out: Vec<char> = Vec::new();
    proof {
        assert(out@ + header_from(v@, 0) =~= header_from(v@, 0));
    }
    let mut i: usize = 0;
    while i < v.len()
        invariant
            i <= v@.len(),
            header_from(v@, 0) == out@ + header_from(v@, i as int),
        decreases v@.len() - i,
    {
        let m = header_try(v, i);
        let ghost before = out@;
        if m >= 1 {
            append_colored_sub(&mut out, v, i, i + m, Color::Yellow);
            proof {
                assert(header_from(v@, i as int) == header_rw(v@, i as int, m as int)
                    + header_from(v@, i + m));
                assert(before + (header_rw(v@, i as int, m as int) + header_from(v@, i + m))
                    =~= out@ + header_from(v@, i + m));
            }
            i += m;
        } else {
            out.push(v[i]);
            proof {
                assert(header_from(v@, i as int) == seq![v@[i as int]] + header_from(v@, i + 1));
                assert(before + (seq![v@[i as int]] + header_from(v@, i + 1)) =~= out@
                    + header_from(v@, i + 1));
            }
            i += 1;
        }
    }
    proof {
        assert(out@ + header_from(v@, v@.len() as int) =~= out@);
    }
    out
}

pub fn url_pass(v: &Vec<char>) -> (r: Vec<char>)
    ensures
        r@ == url_from(v@, 0),
{
    let mut out: Vec<char> = Vec::new();
    proof {
        assert(out@ + url_from(v@, 0) =~= url_from(v@, 0));
    }
    let mut i: usize = 0;
    while i < v.len()
        invariant
            i <= v@.len(),
            url_from(v@, 0) == out@ + url_from(v@, i as int),
        decreases v@.len() - i,
    {
        let m = url_try(v, i);
        let ghost before = out@;
        if m >= 1 {
            append_colored_sub(&mut out, v, i, i + m, Color::Blue);
            proof {
                assert(url_from(v@, i as int) == url_rw(v@, i as int, m as int) + url_from(
                    v@,
                    i + m,
                ));
                assert(before + (url_rw(v@, i as int, m as int) + url_from(v@, i + m)) =~= out@
                    + url_from(v@, i + m));
            }
            i += m;
        } else {
            out.push(v[i]);
            proof {
                assert(url_from(v@, i as int) == seq![v@[i as int]] + url_from(v@, i + 1));
                assert(before + (seq![v@[i as int]] + url_from(v@, i + 1)) =~= out@ + url_from(
                    v@,
                    i + 1,
                ));
            }
            i += 1;
        }
    }
    proof {
        assert(out@ + url_from(v@, v@.len() as int) =~= out@);
    }
    out
}

pub fn unary_pass(v: &Vec<char>) -> (r: Vec<char>)
    ensures
        r@ == unary_from(v@, 0),
{
    let mut out: Vec<char> = Vec::new();
    proof {
        assert(out@ + unary_from(v@, 0) =~= unary_from(v@, 0));
    }
    let mut i: usize = 0;
    while i < v.len()
        invariant
            i <= v@.len(),
            unary_from(v@, 0) == out@ + unary_from(v@, i as int),
        decreases v@.len() - i,
    {
        let m = unary_try(v, i);
        let ghost before = out@;
        if m >= 1 {
            append_colored_sub(&mut out, v, i, i + 1, Color::Cyan);
            append_colored_str(&mut out, "x", Color::Red);
            proof {
                assert(unary_from(v@, i as int) == unary_rw(v@, i as int, m as int) + unary_from(
                    v@,
                    i + m,
                ));
                assert(before + (unary_rw(v@, i as int, m as int) + unary_from(v@, i + m)) =~= out@
                    + unary_from(v@, i + m));
            }
            i += m;
        } else {
            out.push(v[i]);
            proof {
                assert(unary_from(v@, i as int) == seq![v@[i as int]] + unary_from(v@, i + 1));
                assert(before + (seq![v@[i as int]] + unary_from(v@, i + 1)) =~= out@ + unary_from(
                    v@,
                    i + 1,
                ));
            }
            i += 1;
        }
    }
    proof {
        assert(out@ + unary_from(v@, v@.len() as int) =~= out@);
    }
    out
}

#[verifier::rlimit(100)]
pub fn binary_pass(v: &Vec<char>) -> (r: Vec<char>)
    ensures
        r@ == binary_from(v@, 0),
{
    let mut out: Vec<char> = Vec::new();
    proof {
        assert(out@ + binary_from(v@, 0) =~= binary_from(v@, 0));
    }
    let mut i: usize = 0;
    while i < v.len()
        invariant
            i <= v@.len(),
            binary_from(v@, 0) == out@ + binary_from(v@, i as int),
        decreases v@.len() - i,
    {
        let m = binary_try(v, i);
        let ghost before = out@;
        if m >= 1 {
            append_colored_str(&mut out, "x", Color::Red);
            append_str(&mut out, " ");
            append_colored_sub(&mut out, v, i + 2, i + m - 2, Color::Cyan);
            append_str(&mut out, " ");
            append_colored_str(&mut out, "y", Color::Red);
            proof {
                assert(out@ =~= before + binary_rw(v@, i as int, m as int));
                assert(binary_from(v@, i as int) == binary_rw(v@, i as int, m as int)
                    + binary_from(v@, i + m));
                assert(before + (binary_rw(v@, i as int, m as int) + binary_from(v@, i + m))
                    =~= out@ + binary_from(v@, i + m));
            }
            i += m;
        } else {
            out.push(v[i]);
            proof {
                assert(binary_from(v@, i as int) == seq![v@[i as int]] + binary_from(v@, i + 1));
                assert(before + (seq![v@[i as int]] + binary_from(v@, i + 1)) =~= out@
                    + binary_from(v@, i + 1));
            }
            i += 1;
        }
    }
    proof {
        assert(out@ + binary_from(v@, v@.len() as int) =~= out@);
    }
    out
}

pub fn slice_pass(v: &Vec<char>) -> (r: Vec<char>)
    ensures
        r@ == slice_from(v@, 0),
{
    let mut out: Vec<char> = Vec::new();
    proof {
        assert(out@ + slice_from(v@, 0) =~= slice_from(v@, 0));
    }
    let mut i: usize = 0;
    while i < v.len()
        invariant
            i <= v@.len(),
            slice_from(v@, 0) == out@ + slice_from(v@, i as int),
        decreases v@.len() - i,
    {
        let m = slice_try(v, i);
        let ghost before = out@;
        if m >= 1 {
            append_colored_str(&mut out, "x", Color::Red);
            append_str(&mut out, "[");
            let inner = subvec(v, i + 2, i + m - 1);
            append_slice_inner(&mut out, &inner);
            append_str(&mut out, "]");
            proof {
                assert(out@ =~= before + slice_rw(v@, i as int, m as int));
                assert(slice_from(v@, i as int) == slice_rw(v@, i as int, m as int) + slice_from(
                    v@,
                    i + m,
                ));
                assert(before + (slice_rw(v@, i as int, m as int) + slice_from(v@, i + m)) =~= out@
                    + slice_from(v@, i + m));
            }
            i += m;
        } else {
            out.push(v[i]);
            proof {
                assert(slice_from(v@, i as int) == seq![v@[i as int]] + slice_from(v@, i + 1));
                assert(before + (seq![v@[i as int]] + slice_from(v@, i + 1)) =~= out@ + slice_from(
                    v@,
                    i + 1,
                ));
            }
            i += 1;
        }
    }
    proof {
        assert(out@ + slice_from(v@, v@.len() as int) =~= out@);
    }
    out
}

pub fn flag_pass(v: &Vec<char>) -> (r: Vec<char>)
    ensures
        r@ == flag_from(v@, 0),
{
    let mut out: Vec<char> = Vec::new();
    proof {
        assert(out@ + flag_from(v@, 0) =~= flag_from(v@, 0));
    }
    let mut i: usize = 0;
    while i < v.len()
        invariant
            i <= v@.len(),
            flag_from(v@, 0) == out@ + flag_from(v@, i as int),
        decreases v@.len() - i,
    {
        let m = flag_try(v, i);
        let ghost before = out@;
        if m >= 1 {
            append_colored_sub(&mut out, v, i, i + m, Color::Cyan);
            proof {
                assert(flag_from(v@, i as int) == flag_rw(v@, i as int, m as int) + flag_from(
                    v@,
                    i + m,
                ));
                assert(before + (flag_rw(v@, i as int, m as int) + flag_from(v@, i + m)) =~= out@
                    + flag_from(v@, i + m));
            }
            i += m;
        } else {
            out.push(v[i]);
            proof {
                assert(flag_from(v@, i as int) == seq![v@[i as int]] + flag_from(v@, i + 1));
                assert(before + (seq![v@[i as int]] + flag_from(v@, i + 1)) =~= out@ + flag_from(
                    v@,
                    i + 1,
                ));
            }
            i += 1;
        }
    }
    proof {
        assert(out@ + flag_from(v@, v@.len() as int) =~= out@);
    }
    out
}

// ------------------------------------------------------- the full chain

/// The inline colorization of documentation text: quoted spans, section
/// headers, URLs, unary operators, binary operators, the pipeline idiom,
/// slice syntax, and command-line flags, rewritten in that order.
pub open spec fn colorize_spec(s: Seq<char>) -> Seq<char> {
    flag_from(
        slice_from(
            pipeline_all(
                binary_from(unary_from(url_from(header_from(quote_from(s, 0), 0), 0), 0), 0),
            ),
            0,
        ),
        0,
    )
}

pub fn colorize_vec(v: &Vec<char>) -> (r: Vec<char>)
    ensures
        r@ == colorize_spec(v@),
{
    let a = quote_pass(v);
    let b = header_pass(&a);
    let c = url_pass(&b);
    let d = unary_pass(&c);
    let e = binary_pass(&d);
    let f = pipeline_pass(&e);
    let g = slice_pass(&f);
    flag_pass(&g)
}

/// Inline colorization of documentation text, producing terminal text with
/// ANSI color escapes.
pub fn colorize_functions_help(help: &str) -> (r: String)
    ensures
        r@ == colorize_spec(help@),
{
    let v = chars_of(help);
    let out = colorize_vec(&v);
    string_of(&out)
}

// ------------------------------------------------------------- the laws

/// A character that can start or continue none of the inline patterns.
pub open spec fn plain_char(c: char) -> bool {
    c != '"' && c != '\'' && c != '`' && c != '#' && c != 'x' && c != '|'
}

/// Text with none of the inline triggers: no quote characters, no `#`
/// (so no headers), no `x` (the operand every operator pattern needs), no
/// pipe, no `http` and no double hyphen.
pub open spec fn inline_trigger_free(s: Seq<char>) -> bool {
    &&& forall|j: int| 0 <= j < s.len() ==> plain_char(#[trigger] s[j])
    &&& forall|j: int|
        #![trigger s[j]]
        !(0 <= j && j + 3 < s.len() && s[j] == 'h' && s[j + 1] == 't' && s[j + 2] == 't' && s[j
            + 3] == 'p')
    &&& forall|j: int|
        #![trigger s[j]]
        !(0 <= j && j + 1 < s.len() && s[j] == '-' && s[j + 1] == '-')
}

proof fn lemma_quote_noop(s: Seq<char>, i: int)
    requires
        inline_trigger_free(s),
        0 <= i <= s.len(),
    ensures
        quote_from(s, i) == s.skip(i),
    decreases s.len() - i,
{
    if i < s.len() {
        assert(plain_char(s[i]));
        lemma_quote_noop(s, i + 1);
        assert(seq![s[i]] + s.skip(i + 1) =~= s.skip(i));
    } else {
        assert(quote_from(s, i) =~= s.skip(i));
    }
}

proof fn lemma_header_noop(s: Seq<char>, i: int)
    requires
        inline_trigger_free(s),
        0 <= i <= s.len(),
    ensures
        header_from(s, i) == s.skip(i),
    decreases s.len() - i,
{
    if i < s.len() {
        assert(plain_char(s[i]));
        lemma_header_noop(s, i + 1);
        assert(seq![s[i]] + s.skip(i + 1) =~= s.skip(i));
    } else {
        assert(header_from(s, i) =~= s.skip(i));
    }
}

proof fn lemma_url_noop(s: Seq<char>, i: int)
    requires
        inline_trigger_free(s),
        0 <= i <= s.len(),
    ensures
        url_from(s, i) == s.skip(i),
    decreases s.len() - i,
{
    if i < s.len() {
        assert(plain_char(s[i]));
        assert(url_match_at(s, i) == 0);
        lemma_url_noop(s, i + 1);
        assert(seq![s[i]] + s.skip(i + 1) =~= s.skip(i));
    } else {
        assert(url_from(s, i) =~= s.skip(i));
    }
}

proof fn lemma_unary_noop(s: Seq<char>, i: int)
    requires
        inline_trigger_free(s),
        0 <= i <= s.len(),
    ensures
        unary_from(s, i) == s.skip(i),
    decreases s.len() - i,
{
    if i < s.len() {
        if i + 1 < s.len() {
            assert(plain_char(s[i + 1]));
        }
        lemma_unary_noop(s, i + 1);
        assert(seq![s[i]] + s.skip(i + 1) =~= s.skip(i));
    } else {
        assert(unary_from(s, i) =~= s.skip(i));
    }
}

proof fn lemma_binary_noop(s: Seq<char>, i: int)
    requires
        inline_trigger_free(s),
        0 <= i <= s.len(),
    ensures
        binary_from(s, i) == s.skip(i),
    decreases s.len() - i,
{
    if i < s.len() {
        assert(plain_char(s[i]));
        lemma_binary_noop(s, i + 1);
        assert(seq![s[i]] + s.skip(i + 1) =~= s.skip(i));
    } else {
        assert(binary_from(s, i) =~= s.skip(i));
    }
}

proof fn lemma_slice_noop(s: Seq<char>, i: int)
    requires
        inline_trigger_free(s),
        0 <= i <= s.len(),
    ensures
        slice_from(s, i) == s.skip(i),
    decreases s.len() - i,
{
    if i < s.len() {
        assert(plain_char(s[i]));
        lemma_slice_noop(s, i + 1);
        assert(seq![s[i]] + s.skip(i + 1) =~= s.skip(i));
    } else {
        assert(slice_from(s, i) =~= s.skip(i));
    }
}

proof fn lemma_flag_noop(s: Seq<char>, i: int)
    requires
        inline_trigger_free(s),
        0 <= i <= s.len(),
    ensures
        flag_from(s, i) == s.skip(i),
    decreases s.len() - i,
{
    if i < s.len() {
        assert(plain_char(s[i]));
        assert(flag_match_at(s, i) == 0);
        lemma_flag_noop(s, i + 1);
        assert(seq![s[i]] + s.skip(i + 1) =~= s.skip(i));
    } else {
        assert(flag_from(s, i) =~= s.skip(i));
    }
}

proof fn lemma_pipeline_noop(s: Seq<char>)
    requires
        inline_trigger_free(s),
    ensures
        pipeline_all(s) == s,
{
    reveal_strlit("trim(name) |");
    assert("trim(name) |"@[11] == '|');
    assert(forall|j: int| 0 <= j < s.len() ==> s[j] != "trim(name) |"@[11]);
    lemma_replace_absent(s, "trim(name) |"@, "trim(name) "@ + colored(Color::Cyan, "|"@), 11, 0);
    assert(s.skip(0) =~= s);
}

/// The inline colorizer is a no-op on text that holds none of its trigger
/// patterns: no quoted span, header, URL, operator placeholder idiom,
/// pipe, or flag can occur, and every pass copies the text unchanged.
pub proof fn lemma_colorize_noop(s: Seq<char>)
    requires
        inline_trigger_free(s),
    ensures
        colorize_spec(s) == s,
{
    assert(s.skip(0) =~= s);
    lemma_quote_noop(s, 0);
    lemma_header_noop(s, 0);
    lemma_url_noop(s, 0);
    lemma_unary_noop(s, 0);
    lemma_binary_noop(s, 0);
    lemma_pipeline_noop(s);
    lemma_slice_noop(s, 0);
    lemma_flag_noop(s, 0);
}

} // verus!
