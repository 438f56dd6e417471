use vstd::prelude::*;
use crate::ansi::{append_colored_sub, colored, strip_ansi_spec, strip_ansi_vec, Color};
use crate::chars::{append_str, append_sub, chars_of, replace_all_spec, string_of, subvec};
use crate::colorize::{cat1, cat2, cat3, colorize_spec, colorize_vec};
use crate::scan::{
    at_line_start, class_spec, find_line_end, is_digit, is_word_char, line_end, line_start,
    scan_end, scan_while, word_char, CharClass,
};
use crate::wrap::{indent_spec, indent_vec};

verus! {

// The cheatsheet rendering pipeline: on top of the inline colorization it
// replaces three cross-reference links by plain code spans, highlights
// numeric literals, strips list-link syntax, rewrites fenced foreign code
// blocks (keyword, call-head and operator highlighting, then a uniform
// indent), and dims indented comment lines.

// --------------------------------------------------------------- numbers

/// A word boundary just before position `t`: the classes of `s[t-1]` and
/// `s[t]` differ, the end of the text counting as a non-word position.
pub open spec fn word_boundary(s: Seq<char>, t: int) -> bool {
    if t == s.len() {
        is_word_char(s[t - 1])
    } else {
        is_word_char(s[t - 1]) != is_word_char(s[t])
    }
}

fn boundary_at(v: &Vec<char>, t: usize) -> (r: bool)
    requires
        1 <= t <= v@.len(),
    ensures
        r == word_boundary(v@, t as int),
{
    if t == v.len() {
        word_char(v[t - 1])
    } else {
        word_char(v[t - 1]) != word_char(v[t])
    }
}

/// The largest end position in `(d, g]` that sits on a word boundary, or 0
/// when there is none: the backtracking of the trailing boundary.
pub open spec fn best_num_end(s: Seq<char>, d: int, t: int) -> int
    decreases t,
{
    if t <= d || t <= 0 {
        0
    } else if word_boundary(s, t) {
        t
    } else {
        best_num_end(s, d, t - 1)
    }
}

/// A numeric literal at `i`: an optional minus (taken only after a word
/// character), a digit preceded by no word character, a run of digits,
/// dots and underscores, cut back to the last word boundary.
pub open spec fn num_match_at(s: Seq<char>, i: int) -> int {
    if 0 <= i < s.len() {
        let neg = s[i] == '-' && i + 1 < s.len() && is_digit(s[i + 1]) && i > 0 && is_word_char(
            s[i - 1],
        );
        let plain = is_digit(s[i]) && (i == 0 || !is_word_char(s[i - 1]));
        if neg || plain {
            let d: int = if neg {
                i + 1
            } else {
                i
            };
            let g = scan_end(s, d + 1, class_spec(CharClass::NumBody));
            let t = best_num_end(s, d, g);
            if t > d {
                t - i
            } else {
                0
            }
        } else {
            0
        }
    } else {
        0
    }
}

pub open spec fn num_rw(s: Seq<char>, i: int, m: int) -> Seq<char> {
    colored(Color::Red, s.subrange(i, i + m))
}

pub open spec fn num_from(s: Seq<char>, i: int) -> Seq<char>
    decreases s.len() - i,
{
    if i < 0 || i >= s.len() {
        Seq::empty()
    } else {
        let m = num_match_at(s, i);
        if 1 <= m && i + m <= s.len() {
            num_rw(s, i, m) + num_from(s, i + m)
        } else {
            seq![s[i]] + num_from(s, i + 1)
        }
    }
}

fn num_try(v: &Vec<char>, i: usize) -> (m: usize)
    requires
        i < v@.len(),
    ensures
        m == num_match_at(v@, i as int),
        m >= 1 ==> i + m <= v@.len(),
{
    let n = v.len();
    let neg = v[i] == '-' && i + 1 < n && digit_at(v, i + 1) && i > 0 && word_char(v[i - 1]);
    let plain = digit_at(v, i) && (i == 0 || !word_char(v[i - 1]));
    if neg || plain {
        let d: usize = if neg {
            i + 1
        } else {
            i
        };
        let g = scan_while(v, d + 1, CharClass::NumBody);
        let mut t: usize = g;
        while t > d && !boundary_at(v, t)
            invariant
                d < v@.len(),
                d <= g <= v@.len(),
                t <= g,
                best_num_end(v@, d as int, g as int) == best_num_end(v@, d as int, t as int),
            decreases t,
        {
            t -= 1;
        }
        proof {
            if t > d {
                assert(best_num_end(v@, d as int, t as int) == t);
            }
        }
        if t > d {
            t - i
        } else {
            0
        }
    } else {
        0
    }
}

fn digit_at(v: &Vec<char>, i: usize) -> (r: bool)
    requires
        i < v@.len(),
    ensures
        r == is_digit(v@[i as int]),
{
    let u = v[i] as u32;
    48 <= u && u <= 57
}

pub fn num_pass(v: &Vec<char>) -> (r: Vec<char>)
    ensures
        r@ == num_from(v@, 0),
{
    let mut out: Vec<char> = Vec::new();
    proof {
        assert(out@ + num_from(v@, 0) =~= num_from(v@, 0));
    }
    let mut i: usize = 0;
    while i < v.len()
        invariant
            i <= v@.len(),
            num_from(v@, 0) == out@ + num_from(v@, i as int),
        decreases v@.len() - i,
    {
        let m = num_try(v, i);
        let ghost before = out@;
        if m >= 1 {
            append_colored_sub(&mut out, v, i, i + m, Color::Red);
            proof {
                assert(num_from(v@, i as int) == num_rw(v@, i as int, m as int) + num_from(
                    v@,
                    i + m,
                ));
                assert(before + (num_rw(v@, i as int, m as int) + num_from(v@, i + m)) =~= out@
                    + num_from(v@, i + m));
            }
            i += m;
        } else {
            out.push(v[i]);
            proof {
                assert(num_from(v@, i as int) == seq![v@[i as int]] + num_from(v@, i + 1));
                assert(before + (seq![v@[i as int]] + num_from(v@, i + 1)) =~= out@ + num_from(
                    v@,
                    i + 1,
                ));
            }
            i += 1;
        }
    }
    proof {
        assert(out@ + num_from(v@, v@.len() as int) =~= out@);
    }
    out
}

// ------------------------------------------------------ list-link strips

/// A Markdown list item holding an anchor link: `- [text](#anchor)`.
pub open spec fn link_match_at(s: Seq<char>, i: int) -> int {
    if 0 <= i && i + 2 < s.len() && s[i] == '-' && s[i + 1] == ' ' && s[i + 2] == '[' {
        let j = scan_end(s, i + 3, class_spec(CharClass::NotRBracket));
        if j < s.len() && s[j] == ']' && j > i + 3 && j + 2 < s.len() && s[j + 1] == '(' && s[j + 2]
            == '#' {
            let k = scan_end(s, j + 3, class_spec(CharClass::NotRParen));
            if k < s.len() && s[k] == ')' && k > j + 3 {
                k + 1 - i
            } else {
                0
            }
        } else {
            0
        }
    } else {
        0
    }
}

/// The same list item with only the text kept: `- text`.
pub open spec fn link_rw(s: Seq<char>, i: int, m: int) -> Seq<char> {
    "- "@ + s.subrange(i + 3, scan_end(s, i + 3, class_spec(CharClass::NotRBracket)))
}

pub open spec fn link_from(s: Seq<char>, i: int) -> Seq<char>
    decreases s.len() - i,
{
    if i < 0 || i >= s.len() {
        Seq::empty()
    } else {
        let m = link_match_at(s, i);
        if 1 <= m && i + m <= s.len() {
            link_rw(s, i, m) + link_from(s, i + m)
        } else {
            seq![s[i]] + link_from(s, i + 1)
        }
    }
}

fn link_try(v: &Vec<char>, i: usize) -> (r: (usize, usize))
    requires
        i < v@.len(),
    ensures
        r.0 == link_match_at(v@, i as int),
        r.0 >= 1 ==> i + r.0 <= v@.len(),
        r.0 >= 1 ==> i + 3 <= r.1 <= v@.len() && r.1 == scan_end(
            v@,
            i + 3,
            class_spec(CharClass::NotRBracket),
        ),
{
    let n = v.len();
    if n - i > 2 && v[i] == '-' && v[i + 1] == ' ' && v[i + 2] == '[' {
        let j = scan_while(v, i + 3, CharClass::NotRBracket);
        if j < n && v[j] == ']' && j > i + 3 && n - j > 2 && v[j + 1] == '(' && v[j + 2] == '#' {
            let k = scan_while(v, j + 3, CharClass::NotRParen);
            if k < n && v[k] == ')' && k > j + 3 {
                (k + 1 - i, j)
            } else {
                (0, 0)
            }
        } else {
            (0, 0)
        }
    } else {
        (0, 0)
    }
}

pub fn link_pass(v: &Vec<char>) -> (r: Vec<char>)
    ensures
        r@ == link_from(v@, 0),
{
    let mut out: Vec<char> = Vec::new();
    proof {
        assert(out@ + link_from(v@, 0) =~= link_from(v@, 0));
    }
    let mut i: usize = 0;
    while i < v.len()
        invariant
            i <= v@.len(),
            link_from(v@, 0) == out@ + link_from(v@, i as int),
        decreases v@.len() - i,
    {
        let (m, j) = link_try(v, i);
        let ghost before = out@;
        if m >= 1 {
            append_str(&mut out, "- ");
            append_sub(&mut out, v, i + 3, j);
            proof {
                assert(out@ =~= before + link_rw(v@, i as int, m as int));
                assert(link_from(v@, i as int) == link_rw(v@, i as int, m as int) + link_from(
                    v@,
                    i + m,
                ));
                assert(before + (link_rw(v@, i as int, m as int) + link_from(v@, i + m)) =~= out@
                    + link_from(v@, i + m));
            }
            i += m;
        } else {
            out.push(v[i]);
            proof {
                assert(link_from(v@, i as int) == seq![v@[i as int]] + link_from(v@, i + 1));
                assert(before + (seq![v@[i as int]] + link_from(v@, i + 1)) =~= out@ + link_from(
                    v@,
                    i + 1,
                ));
            }
            i += 1;
        }
    }
    proof {
        assert(out@ + link_from(v@, v@.len() as int) =~= out@);
    }
    out
}

// ------------------------------------------------- fenced code sub-passes

/// A literal keyword of the foreign syntaxes: `true`, `false`, `null`, or
/// the example regex literal, tried in that order.
pub open spec fn special_match_at(s: Seq<char>, i: int) -> int {
    if cat3(s, i, 't', 'r', 'u') && cat1(s, i + 3, 'e') {
        4
    } else if cat3(s, i, 'f', 'a', 'l') && cat2(s, i + 3, 's', 'e') {
        5
    } else if cat3(s, i, 'n', 'u', 'l') && cat1(s, i + 3, 'l') {
        4
    } else if cat3(s, i, '/', 'j', 'o') && cat3(s, i + 3, 'h', 'n', '/') {
        if cat1(s, i + 6, 'i') {
            7
        } else {
            6
        }
    } else {
        0
    }
}

pub open spec fn special_rw(s: Seq<char>, i: int, m: int) -> Seq<char> {
    colored(Color::Yellow, s.subrange(i, i + m))
}

pub open spec fn special_from(s: Seq<char>, i: int) -> Seq<char>
    decreases s.len() - i,
{
    if i < 0 || i >= s.len() {
        Seq::empty()
    } else {
        let m = special_match_at(s, i);
        if 1 <= m && i + m <= s.len() {
            special_rw(s, i, m) + special_from(s, i + m)
        } else {
            seq![s[i]] + special_from(s, i + 1)
        }
    }
}

fn special_try(v: &Vec<char>, i: usize) -> (m: usize)
    requires
        i < v@.len(),
    ensures
        m == special_match_at(v@, i as int),
        m >= 1 ==> i + m <= v@.len(),
{
    let n = v.len();
    proof {
        assert(n == v@.len());
    }
    if crate::colorize::exec_cat3(v, i, 't', 'r', 'u') && crate::colorize::exec_cat1(v, i + 3, 'e')
        {
        4
    } else if crate::colorize::exec_cat3(v, i, 'f', 'a', 'l') && crate::colorize::exec_cat2(
        v,
        i + 3,
        's',
        'e',
    ) {
        5
    } else if crate::colorize::exec_cat3(v, i, 'n', 'u', 'l') && crate::colorize::exec_cat1(
        v,
        i + 3,
        'l',
    ) {
        4
    } else if crate::colorize::exec_cat3(v, i, '/', 'j', 'o') && crate::colorize::exec_cat3(
        v,
        i + 3,
        'h',
        'n',
        '/',
    ) {
        if crate::colorize::exec_cat1(v, i + 6, 'i') {
            7
        } else {
            6
        }
    } else {
        0
    }
}

pub fn special_pass(v: &Vec<char>) -> (r: Vec<char>)
    ensures
        r@ == special_from(v@, 0),
{
    let mut out: Vec<char> = Vec::new();
    proof {
        assert(out@ + special_from(v@, 0) =~= special_from(v@, 0));
    }
    let mut i: usize = 0;
    while i < v.len()
        invariant
            i <= v@.len(),
            special_from(v@, 0) == out@ + special_from(v@, i as int),
        decreases v@.len() - i,
    {
        let m = special_try(v, i);
        let ghost before = out@;
        if m >= 1 {
            append_colored_sub(&mut out, v, i, i + m, Color::Yellow);
            proof {
                assert(special_from(v@, i as int) == special_rw(v@, i as int, m as int)
                    + special_from(v@, i + m));
                assert(before + (special_rw(v@, i as int, m as int) + special_from(v@, i + m))
                    =~= out@ + special_from(v@, i + m));
            }
            i += m;
        } else {
            out.push(v[i]);
            proof {
                assert(special_from(v@, i as int) == seq![v@[i as int]] + special_from(v@, i + 1));
                assert(before + (seq![v@[i as int]] + special_from(v@, i + 1)) =~= out@
                    + special_from(v@, i + 1));
            }
            i += 1;
        }
    }
    proof {
        assert(out@ + special_from(v@, v@.len() as int) =~= out@);
    }
    out
}

/// A function-call head: a run of lower-case letters and underscores
/// followed directly by an opening parenthesis.
pub open spec fn funcall_match_at(s: Seq<char>, i: int) -> int {
    if 0 <= i < s.len() && class_spec(CharClass::LowerUscore)(s[i]) {
        let e = scan_end(s, i, class_spec(CharClass::LowerUscore));
        if e < s.len() && s[e] == '(' {
            e + 1 - i
        } else {
            0
        }
    } else {
        0
    }
}

pub open spec fn funcall_rw(s: Seq<char>, i: int, m: int) -> Seq<char> {
    colored(Color::Blue, s.subrange(i, i + m - 1)) + "("@
}

pub open spec fn funcall_from(s: Seq<char>, i: int) -> Seq<char>
    decreases s.len() - i,
{
    if i < 0 || i >= s.len() {
        Seq::empty()
    } else {
        let m = funcall_match_at(s, i);
        if 1 <= m && i + m <= s.len() {
            funcall_rw(s, i, m) + funcall_from(s, i + m)
        } else {
            seq![s[i]] + funcall_from(s, i + 1)
        }
    }
}

fn funcall_try(v: &Vec<char>, i: usize) -> (m: usize)
    requires
        i < v@.len(),
    ensures
        m == funcall_match_at(v@, i as int),
        m >= 1 ==> i + m <= v@.len(),
{
    let n = v.len();
    let u = v[i] as u32;
    if (97 <= u && u <= 122) || v[i] == '_' {
        let e = scan_while(v, i, CharClass::LowerUscore);
        if e < n && v[e] == '(' {
            e + 1 - i
        } else {
            0
        }
    } else {
        0
    }
}

pub fn funcall_pass(v: &Vec<char>) -> (r: Vec<char>)
    ensures
        r@ == funcall_from(v@, 0),
{
    let mut out: Vec<char> = Vec::new();
    proof {
        assert(out@ + funcall_from(v@, 0) =~= funcall_from(v@, 0));
    }
    let mut i: usize = 0;
    while i < v.len()
        invariant
            i <= v@.len(),
            funcall_from(v@, 0) == out@ + funcall_from(v@, i as int),
        decreases v@.len() - i,
    {
        let m = funcall_try(v, i);
        let ghost before = out@;
        if m >= 1 {
            append_colored_sub(&mut out, v, i, i + m - 1, Color::Blue);
            append_str(&mut out, "(");
            proof {
                assert(out@ =~= before + funcall_rw(v@, i as int, m as int));
                assert(funcall_from(v@, i as int) == funcall_rw(v@, i as int, m as int)
                    + funcall_from(v@, i + m));
                assert(before + (funcall_rw(v@, i as int, m as int) + funcall_from(v@, i + m))
                    =~= out@ + funcall_from(v@, i + m));
            }
            i += m;
        } else {
            out.push(v[i]);
            proof {
                assert(funcall_from(v@, i as int) == seq![v@[i as int]] + funcall_from(v@, i + 1));
                assert(before + (seq![v@[i as int]] + funcall_from(v@, i + 1)) =~= out@
                    + funcall_from(v@, i + 1));
            }
            i += 1;
        }
    }
    proof {
        assert(out@ + funcall_from(v@, v@.len() as int) =~= out@);
    }
    out
}

/// The length of the inline operator of the foreign syntaxes starting at
/// `p`, tried in the pattern's order, or 0.
pub open spec fn fence_op_len(s: Seq<char>, p: int) -> int {
    if cat2(s, p, '=', '>') {
        2
    } else if cat2(s, p, 'e', 'q') {
        2
    } else if cat2(s, p, 'i', 'n') {
        2
    } else if cat2(s, p, 'a', 's') {
        2
    } else if cat2(s, p, '|', '|') {
        2
    } else if cat1(s, p, '<') || cat1(s, p, '>') || cat1(s, p, '/') || cat1(s, p, '+') {
        1
    } else {
        0
    }
}

fn exec_fence_op_len(v: &Vec<char>, p: usize) -> (r: usize)
    ensures
        r == fence_op_len(v@, p as int),
{
    if crate::colorize::exec_cat2(v, p, '=', '>') {
        2
    } else if crate::colorize::exec_cat2(v, p, 'e', 'q') {
        2
    } else if crate::colorize::exec_cat2(v, p, 'i', 'n') {
        2
    } else if crate::colorize::exec_cat2(v, p, 'a', 's') {
        2
    } else if crate::colorize::exec_cat2(v, p, '|', '|') {
        2
    } else if crate::colorize::exec_cat1(v, p, '<') || crate::colorize::exec_cat1(v, p, '>')
        || crate::colorize::exec_cat1(v, p, '/') || crate::colorize::exec_cat1(v, p, '+') {
        1
    } else {
        0
    }
}

/// An operator of the foreign syntaxes surrounded by single spaces.
pub open spec fn fence_op_match_at(s: Seq<char>, i: int) -> int {
    if 0 <= i < s.len() && s[i] == ' ' {
        let l = fence_op_len(s, i + 1);
        if l > 0 && i + l + 1 < s.len() && s[i + l + 1] == ' ' {
            l + 2
        } else {
            0
        }
    } else {
        0
    }
}

pub open spec fn fence_op_rw(s: Seq<char>, i: int, m: int) -> Seq<char> {
    " "@ + colored(Color::Cyan, s.subrange(i + 1, i + m - 1)) + " "@
}

pub open spec fn fence_op_from(s: Seq<char>, i: int) -> Seq<char>
    decreases s.len() - i,
{
    if i < 0 || i >= s.len() {
        Seq::empty()
    } else {
        let m = fence_op_match_at(s, i);
        if 1 <= m && i + m <= s.len() {
            fence_op_rw(s, i, m) + fence_op_from(s, i + m)
        } else {
            seq![s[i]] + fence_op_from(s, i + 1)
        }
    }
}

fn fence_op_try(v: &Vec<char>, i: usize) -> (m: usize)
    requires
        i < v@.len(),
    ensures
        m == fence_op_match_at(v@, i as int),
        m >= 1 ==> i + m <= v@.len(),
{
    let n = v.len();
    if v[i] == ' ' {
        let l = exec_fence_op_len(v, i + 1);
        if l > 0 && l <= 2 && n - i > l + 1 && v[i + l + 1] == ' ' {
            l + 2
        } else {
            0
        }
    } else {
        0
    }
}

pub fn fence_op_pass(v: &Vec<char>) -> (r: Vec<char>)
    ensures
        r@ == fence_op_from(v@, 0),
{
    let mut out: Vec<char> = Vec::new();
    proof {
        assert(out@ + fence_op_from(v@, 0) =~= fence_op_from(v@, 0));
    }
    let mut i: usize = 0;
    while i < v.len()
        invariant
            i <= v@.len(),
            fence_op_from(v@, 0) == out@ + fence_op_from(v@, i as int),
        decreases v@.len() - i,
    {
        let m = fence_op_try(v, i);
        let ghost before = out@;
        if m >= 1 {
            append_str(&mut out, " ");
            append_colored_sub(&mut out, v, i + 1, i + m - 1, Color::Cyan);
            append_str(&mut out, " ");
            proof {
                assert(out@ =~= before + fence_op_rw(v@, i as int, m as int));
                assert(fence_op_from(v@, i as int) == fence_op_rw(v@, i as int, m as int)
                    + fence_op_from(v@, i + m));
                assert(before + (fence_op_rw(v@, i as int, m as int) + fence_op_from(v@, i + m))
                    =~= out@ + fence_op_from(v@, i + m));
            }
            i += m;
        } else {
            out.push(v[i]);
            proof {
                assert(fence_op_from(v@, i as int) == seq![v@[i as int]] + fence_op_from(
                    v@,
                    i + 1,
                ));
                assert(before + (seq![v@[i as int]] + fence_op_from(v@, i + 1)) =~= out@
                    + fence_op_from(v@, i + 1));
            }
            i += 1;
        }
    }
    proof {
        assert(out@ + fence_op_from(v@, v@.len() as int) =~= out@);
    }
    out
}

// ---------------------------------------------------------- code fences

/// The length of a fence label (`python`, `scss` or `javascript`) at `p`.
pub open spec fn fence_label_len(s: Seq<char>, p: int) -> int {
    if cat3(s, p, 'p', 'y', 't') && cat3(s, p + 3, 'h', 'o', 'n') {
        6
    } else if cat2(s, p, 's', 'c') && cat2(s, p + 2, 's', 's') {
        4
    } else if cat3(s, p, 'j', 'a', 'v') && cat3(s, p + 3, 'a', 's', 'c') && cat2(s, p + 6, 'r', 'i')
        && cat2(s, p + 8, 'p', 't') {
        10
    } else {
        0
    }
}

fn exec_fence_label_len(v: &Vec<char>, p: usize) -> (r: usize)
    ensures
        r == fence_label_len(v@, p as int),
{
    let n = v.len();
    proof {
        assert(n == v@.len());
    }
    if crate::colorize::exec_cat3(v, p, 'p', 'y', 't') && crate::colorize::exec_cat3(
        v,
        p + 3,
        'h',
        'o',
        'n',
    ) {
        6
    } else if crate::colorize::exec_cat2(v, p, 's', 'c') && crate::colorize::exec_cat2(
        v,
        p + 2,
        's',
        's',
    ) {
        4
    } else if crate::colorize::exec_cat3(v, p, 'j', 'a', 'v') && crate::colorize::exec_cat3(
        v,
        p + 3,
        'a',
        's',
        'c',
    ) && crate::colorize::exec_cat2(v, p + 6, 'r', 'i') && crate::colorize::exec_cat2(
        v,
        p + 8,
        'p',
        't',
    ) {
        10
    } else {
        0
    }
}

/// A fenced code block with a foreign-syntax label: three backticks, the
/// label, a newline, at least one character up to the first backtick, then
/// three backticks.
pub open spec fn fence_match_at(s: Seq<char>, i: int) -> int {
    if 0 <= i && i + 2 < s.len() && s[i] == '`' && s[i + 1] == '`' && s[i + 2] == '`' {
        let ll = fence_label_len(s, i + 3);
        if ll > 0 {
            let c = i + 3 + ll;
            if c < s.len() && s[c] == '\n' {
                let g = scan_end(s, c + 1, class_spec(CharClass::NotBacktick));
                if g > c + 1 && g + 2 < s.len() && s[g] == '`' && s[g + 1] == '`' && s[g + 2] == '`'
                    {
                    g + 3 - i
                } else {
                    0
                }
            } else {
                0
            }
        } else {
            0
        }
    } else {
        0
    }
}

/// The interior of the fence (the newline and the block body) of a match
/// at `i`.
pub open spec fn fence_interior(s: Seq<char>, i: int) -> Seq<char> {
    let ll = fence_label_len(s, i + 3);
    let c = i + 3 + ll;
    s.subrange(c, scan_end(s, c + 1, class_spec(CharClass::NotBacktick)))
}

/// The whole fence replaced: the interior run through the three sub-passes
/// and indented by four spaces; label and fences disappear.
pub open spec fn fence_rw(s: Seq<char>, i: int, m: int) -> Seq<char> {
    indent_spec(fence_op_from(funcall_from(special_from(fence_interior(s, i), 0), 0), 0), "    "@)
}

pub open spec fn fence_from(s: Seq<char>, i: int) -> Seq<char>
    decreases s.len() - i,
{
    if i < 0 || i >= s.len() {
        Seq::empty()
    } else {
        let m = fence_match_at(s, i);
        if 1 <= m && i + m <= s.len() {
            fence_rw(s, i, m) + fence_from(s, i + m)
        } else {
            seq![s[i]] + fence_from(s, i + 1)
        }
    }
}

fn fence_try(v: &Vec<char>, i: usize) -> (r: (usize, usize, usize))
    requires
        i < v@.len(),
    ensures
        r.0 == fence_match_at(v@, i as int),
        r.0 >= 1 ==> i + r.0 <= v@.len(),
        r.0 >= 1 ==> i <= r.1 <= r.2 <= v@.len() && v@.subrange(r.1 as int, r.2 as int)
            == fence_interior(v@, i as int),
{
    let n = v.len();
    if n - i > 2 && v[i] == '`' && v[i + 1] == '`' && v[i + 2] == '`' {
        let ll = exec_fence_label_len(v, i + 3);
        if ll > 0 && ll <= 10 {
            let c = i + 3 + ll;
            if c < n && v[c] == '\n' {
                let g = scan_while(v, c + 1, CharClass::NotBacktick);
                if g > c + 1 && n - g > 2 && v[g] == '`' && v[g + 1] == '`' && v[g + 2] == '`' {
                    (g + 3 - i, c, g)
                } else {
                    (0, 0, 0)
                }
            } else {
                (0, 0, 0)
            }
        } else {
            (0, 0, 0)
        }
    } else {
        (0, 0, 0)
    }
}

pub fn fence_pass(v: &Vec<char>) -> (r: Vec<char>)
    ensures
        r@ == fence_from(v@, 0),
{
    let mut out: Vec<char> = Vec::new();
    proof {
        assert(out@ + fence_from(v@, 0) =~= fence_from(v@, 0));
    }
    let mut i: usize = 0;
    while i < v.len()
        invariant
            i <= v@.len(),
            fence_from(v@, 0) == out@ + fence_from(v@, i as int),
        decreases v@.len() - i,
    {
        let (m, c, g) = fence_try(v, i);
        let ghost before = out@;
        if m >= 1 {
            let inner = subvec(v, c, g);
            let a = special_pass(&inner);
            let b = funcall_pass(&a);
            let d = fence_op_pass(&b);
            let e = indent_vec(&d);
            crate::chars::append_seq(&mut out, &e);
            proof {
                assert(out@ =~= before + fence_rw(v@, i as int, m as int));
                assert(fence_from(v@, i as int) == fence_rw(v@, i as int, m as int) + fence_from(
                    v@,
                    i + m,
                ));
                assert(before + (fence_rw(v@, i as int, m as int) + fence_from(v@, i + m)) =~= out@
                    + fence_from(v@, i + m));
            }
            i += m;
        } else {
            out.push(v[i]);
            proof {
                assert(fence_from(v@, i as int) == seq![v@[i as int]] + fence_from(v@, i + 1));
                assert(before + (seq![v@[i as int]] + fence_from(v@, i + 1)) =~= out@ + fence_from(
                    v@,
                    i + 1,
                ));
            }
            i += 1;
        }
    }
    proof {
        assert(out@ + fence_from(v@, v@.len() as int) =~= out@);
    }
    out
}

// -------------------------------------------------------- comment lines

/// An indented comment line: at a line start, four spaces, an optional
/// ANSI color escape, then `#` and at least one more character on the
/// line. The end of the escape, or -1 when an escape starts but is not
/// well formed (the pattern then cannot match at this position).
pub open spec fn comment_hash_pos(s: Seq<char>, i: int) -> int {
    if i + 4 < s.len() && s[i + 4] == '\u{1b}' {
        if i + 5 < s.len() && s[i + 5] == '[' {
            let e = scan_end(s, i + 6, class_spec(CharClass::Code));
            if e < s.len() && s[e] == 'm' {
                e + 1
            } else {
                -1
            }
        } else {
            -1
        }
    } else {
        i + 4
    }
}

pub open spec fn comment_match_at(s: Seq<char>, i: int) -> int {
    if 0 <= i && i + 3 < s.len() && at_line_start(s, i) && s[i] == ' ' && s[i + 1] == ' ' && s[i
        + 2] == ' ' && s[i + 3] == ' ' {
        let h = comment_hash_pos(s, i);
        if h >= 0 && h < s.len() && s[h] == '#' {
            let e2 = line_end(s, h + 1);
            if e2 > h + 1 {
                e2 - i
            } else {
                0
            }
        } else {
            0
        }
    } else {
        0
    }
}

/// The whole line with its color escapes stripped, dimmed.
pub open spec fn comment_rw(s: Seq<char>, i: int, m: int) -> Seq<char> {
    colored(Color::Dim, strip_ansi_spec(s.subrange(i, i + m)))
}

pub open spec fn comment_from(s: Seq<char>, i: int) -> Seq<char>
    decreases s.len() - i,
{
    if i < 0 || i >= s.len() {
        Seq::empty()
    } else {
        let m = comment_match_at(s, i);
        if 1 <= m && i + m <= s.len() {
            comment_rw(s, i, m) + comment_from(s, i + m)
        } else {
            seq![s[i]] + comment_from(s, i + 1)
        }
    }
}

fn comment_try(v: &Vec<char>, i: usize) -> (m: usize)
    requires
        i < v@.len(),
    ensures
        m == comment_match_at(v@, i as int),
        m >= 1 ==> i + m <= v@.len(),
{
    let n = v.len();
    if n - i > 3 && line_start(v, i) && v[i] == ' ' && v[i + 1] == ' ' && v[i + 2] == ' ' && v[i
        + 3] == ' ' {
        let mut h: usize = i + 4;
        let mut ok: bool = true;
        if i + 4 < n && v[i + 4] == '\u{1b}' {
            if i + 5 < n && v[i + 5] == '[' {
                let e = scan_while(v, i + 6, CharClass::Code);
                if e < n && v[e] == 'm' {
                    h = e + 1;
                } else {
                    ok = false;
                }
            } else {
                ok = false;
            }
        }
        if ok && h < n && v[h] == '#' {
            let e2 = find_line_end(v, h + 1);
            if e2 > h + 1 {
                e2 - i
            } else {
                0
            }
        } else {
            0
        }
    } else {
        0
    }
}

pub fn comment_pass(v: &Vec<char>) -> (r: Vec<char>)
    ensures
        r@ == comment_from(v@, 0),
{
    let mut out: Vec<char> = Vec::new();
    proof {
        assert(out@ + comment_from(v@, 0) =~= comment_from(v@, 0));
    }
    let mut i: usize = 0;
    while i < v.len()
        invariant
            i <= v@.len(),
            comment_from(v@, 0) == out@ + comment_from(v@, i as int),
        decreases v@.len() - i,
    {
        let m = comment_try(v, i);
        let ghost before = out@;
        if m >= 1 {
            let line = subvec(v, i, i + m);
            let stripped = strip_ansi_vec(&line);
            append_colored_sub(&mut out, &stripped, 0, stripped.len(), Color::Dim);
            proof {
                assert(stripped@.subrange(0, stripped@.len() as int) =~= stripped@);
                assert(out@ =~= before + comment_rw(v@, i as int, m as int));
                assert(comment_from(v@, i as int) == comment_rw(v@, i as int, m as int)
                    + comment_from(v@, i + m));
                assert(before + (comment_rw(v@, i as int, m as int) + comment_from(v@, i + m))
                    =~= out@ + comment_from(v@, i + m));
            }
            i += m;
        } else {
            out.push(v[i]);
            proof {
                assert(comment_from(v@, i as int) == seq![v@[i as int]] + comment_from(v@, i + 1));
                assert(before + (seq![v@[i as int]] + comment_from(v@, i + 1)) =~= out@
                    + comment_from(v@, i + 1));
            }
            i += 1;
        }
    }
    proof {
        assert(out@ + comment_from(v@, v@.len() as int) =~= out@);
    }
    out
}

// -------------------------------------------------- the whole cheatsheet

/// The three cross-reference links replaced by their plain code spans.
pub open spec fn replace_links_spec(s: Seq<char>) -> Seq<char> {
    replace_all_spec(
        replace_all_spec(
            replace_all_spec(
                s,
                "[`xan help functions`](./functions.md)"@,
                "`xan help functions`"@,
            ),
            "[`xan help cheatsheet`](./cheatsheet.md)"@,
            "`xan help cheatsheet`"@,
        ),
        "[`xan help aggs`](./aggs.md)"@,
        "`xan help aggs`"@,
    )
}

/// Replace the cross-reference links of the cheatsheet by plain inline
/// code spans, removing the link wrapper entirely.
pub fn replace_links(s: &str) -> (r: String)
    ensures
        r@ == replace_links_spec(s@),
{
    let a = crate::chars::replace_str(
        s,
        "[`xan help functions`](./functions.md)",
        "`xan help functions`",
    );
    let b = crate::chars::replace_str(
        a.as_str(),
        "[`xan help cheatsheet`](./cheatsheet.md)",
        "`xan help cheatsheet`",
    );
    crate::chars::replace_str(b.as_str(), "[`xan help aggs`](./aggs.md)", "`xan help aggs`")
}

/// The full cheatsheet rewriting: link replacement, number highlighting,
/// inline colorization, list-link stripping, fenced-block rewriting, and
/// comment dimming, in that order.
pub open spec fn recombobulate_spec(s: Seq<char>) -> Seq<char> {
    comment_from(
        fence_from(link_from(colorize_spec(num_from(replace_links_spec(s), 0)), 0), 0),
        0,
    )
}

pub fn recombobulate_cheatsheet(help: &str) -> (r: String)
    ensures
        r@ == recombobulate_spec(help@),
{
    let replaced = replace_links(help);
    let v = chars_of(replaced.as_str());
    let a = num_pass(&v);
    let b = colorize_vec(&a);
    let c = link_pass(&b);
    let d = fence_pass(&c);
    let e = comment_pass(&d);
    string_of(&e)
}

/// The terminal rendering of a cheatsheet body.
pub fn get_colorized_cheatsheet(cheatsheet: &str) -> (r: String)
    ensures
        r@ == recombobulate_spec(cheatsheet@),
{
    recombobulate_cheatsheet(cheatsheet)
}

// ------------------------------------------------------------- the laws

/// Text with none of the cheatsheet triggers: nothing the inline passes
/// react to, and additionally no digits (numeric literals), no `[`
/// (cross-reference links, list links) and no escape character.
pub open spec fn cheatsheet_trigger_free(s: Seq<char>) -> bool {
    &&& crate::colorize::inline_trigger_free(s)
    &&& forall|j: int| 0 <= j < s.len() ==> !is_digit(#[trigger] s[j]) && s[j] != '['
}

proof fn lemma_num_noop(s: Seq<char>, i: int)
    requires
        cheatsheet_trigger_free(s),
        0 <= i <= s.len(),
    ensures
        num_from(s, i) == s.skip(i),
    decreases s.len() - i,
{
    if i < s.len() {
        assert(!is_digit(s[i]));
        if i + 1 < s.len() {
            assert(!is_digit(s[i + 1]));
        }
        assert(num_match_at(s, i) == 0);
        lemma_num_noop(s, i + 1);
        assert(seq![s[i]] + s.skip(i + 1) =~= s.skip(i));
    } else {
        assert(num_from(s, i) =~= s.skip(i));
    }
}

proof fn lemma_link_noop(s: Seq<char>, i: int)
    requires
        cheatsheet_trigger_free(s),
        0 <= i <= s.len(),
    ensures
        link_from(s, i) == s.skip(i),
    decreases s.len() - i,
{
    if i < s.len() {
        if i + 2 < s.len() {
            assert(s[i + 2] != '[');
        }
        assert(link_match_at(s, i) == 0);
        lemma_link_noop(s, i + 1);
        assert(seq![s[i]] + s.skip(i + 1) =~= s.skip(i));
    } else {
        assert(link_from(s, i) =~= s.skip(i));
    }
}

proof fn lemma_fence_noop(s: Seq<char>, i: int)
    requires
        cheatsheet_trigger_free(s),
        0 <= i <= s.len(),
    ensures
        fence_from(s, i) == s.skip(i),
    decreases s.len() - i,
{
    if i < s.len() {
        assert(crate::colorize::plain_char(s[i]));
        assert(fence_match_at(s, i) == 0);
        lemma_fence_noop(s, i + 1);
        assert(seq![s[i]] + s.skip(i + 1) =~= s.skip(i));
    } else {
        assert(fence_from(s, i) =~= s.skip(i));
    }
}

proof fn lemma_comment_noop(s: Seq<char>, i: int)
    requires
        cheatsheet_trigger_free(s),
        0 <= i <= s.len(),
    ensures
        comment_from(s, i) == s.skip(i),
    decreases s.len() - i,
{
    if i < s.len() {
        if comment_match_at(s, i) != 0 {
            let h = comment_hash_pos(s, i);
            if i + 5 < s.len() {
                assert(s[i + 5] != '[');
            }
            assert(0 <= h < s.len() && s[h] == '#');
            assert(crate::colorize::plain_char(s[h]));
            assert(false);
        }
        lemma_comment_noop(s, i + 1);
        assert(seq![s[i]] + s.skip(i + 1) =~= s.skip(i));
    } else {
        assert(comment_from(s, i) =~= s.skip(i));
    }
}

proof fn lemma_replace_links_noop(s: Seq<char>)
    requires
        cheatsheet_trigger_free(s),
    ensures
        replace_links_spec(s) == s,
{
    reveal_strlit("[`xan help functions`](./functions.md)");
    reveal_strlit("[`xan help cheatsheet`](./cheatsheet.md)");
    reveal_strlit("[`xan help aggs`](./aggs.md)");
    assert("[`xan help functions`](./functions.md)"@[0] == '[');
    assert("[`xan help cheatsheet`](./cheatsheet.md)"@[0] == '[');
    assert("[`xan help aggs`](./aggs.md)"@[0] == '[');
    crate::chars::lemma_replace_absent(
        s,
        "[`xan help functions`](./functions.md)"@,
        "`xan help functions`"@,
        0,
        0,
    );
    assert(s.skip(0) =~= s);
    crate::chars::lemma_replace_absent(
        s,
        "[`xan help cheatsheet`](./cheatsheet.md)"@,
        "`xan help cheatsheet`"@,
        0,
        0,
    );
    crate::chars::lemma_replace_absent(s, "[`xan help aggs`](./aggs.md)"@, "`xan help aggs`"@, 0, 0);
}

/// The whole cheatsheet pipeline is a no-op on text that holds none of
/// its trigger patterns: no link, number, quote, header, URL, operator
/// idiom, flag, fence or comment line means every pass copies the text
/// unchanged.
pub proof fn lemma_cheatsheet_noop(s: Seq<char>)
    requires
        cheatsheet_trigger_free(s),
    ensures
        recombobulate_spec(s) == s,
{
    assert(s.skip(0) =~= s);
    lemma_replace_links_noop(s);
    lemma_num_noop(s, 0);
    crate::colorize::lemma_colorize_noop(s);
    lemma_link_noop(s, 0);
    lemma_fence_noop(s, 0);
    lemma_comment_noop(s, 0);
}

} // verus!
