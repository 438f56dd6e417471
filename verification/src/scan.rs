use vstd::prelude::*;
use crate::slug::is_ascii_alnum;

verus! {

// Left-to-right scanning: the first position at or after `i` whose
// character falls outside a class. Shared by all the pattern passes.

pub open spec fn scan_end(s: Seq<char>, i: int, f: spec_fn(char) -> bool) -> int
    decreases s.len() - i,
{
    if i < 0 || i >= s.len() {
        s.len() as int
    } else if f(s[i]) {
        scan_end(s, i + 1, f)
    } else {
        i
    }
}

pub proof fn lemma_scan_end_eq(s: Seq<char>, i: int, j: int, f: spec_fn(char) -> bool)
    requires
        0 <= i <= j <= s.len(),
        forall|k: int| i <= k < j ==> f(#[trigger] s[k]),
        j == s.len() || !f(s[j]),
    ensures
        scan_end(s, i, f) == j,
    decreases j - i,
{
    if i < j {
        lemma_scan_end_eq(s, i + 1, j, f);
    }
}

pub open spec fn is_digit(c: char) -> bool {
    48 <= c as u32 && c as u32 <= 57
}

pub open spec fn is_word_char(c: char) -> bool {
    is_ascii_alnum(c) || c == '_'
}

/// The whitespace class of the patterns: space, tab, newline, carriage
/// return, vertical tab and form feed.
pub open spec fn is_ws_char(c: char) -> bool {
    c == ' ' || c == '\t' || c == '\n' || c == '\r' || c == '\u{b}' || c == '\u{c}'
}

pub fn ws_char(c: char) -> (r: bool)
    ensures
        r == is_ws_char(c),
{
    c == ' ' || c == '\t' || c == '\n' || c == '\r' || c == '\u{b}' || c == '\u{c}'
}

pub fn word_char(c: char) -> (r: bool)
    ensures
        r == is_word_char(c),
{
    let u = c as u32;
    (48 <= u && u <= 57) || (65 <= u && u <= 90) || (97 <= u && u <= 122) || c == '_'
}

pub fn digit_char(c: char) -> (r: bool)
    ensures
        r == is_digit(c),
{
    let u = c as u32;
    48 <= u && u <= 57
}

/// The character classes whose maximal runs the passes need.
#[derive(Clone, Copy)]
pub enum CharClass {
    /// Anything but a line break: scanning gives the end of the line.
    NotNewline,
    /// `[0-9A-Za-z_]`.
    Word,
    /// `[0-9A-Za-z_-]`, the body of a command-line flag.
    Flag,
    /// `[0-9;]`, the body of an ANSI escape sequence.
    Code,
    /// `[0-9._]`, the body of a numeric literal.
    NumBody,
    /// `[a-z_]`, the head of a function call.
    LowerUscore,
    /// `[a-z:]`, the interior of an index/slice expression.
    SliceBody,
    /// Anything but whitespace: scanning gives the end of a URL.
    NonWs,
    /// Anything but `]`.
    NotRBracket,
    /// Anything but `)`.
    NotRParen,
    /// Anything but a backtick.
    NotBacktick,
    /// Anything but a colon.
    NotColon,
}

pub open spec fn class_holds(cc: CharClass, c: char) -> bool {
    match cc {
        CharClass::NotNewline => c != '\n',
        CharClass::Word => is_word_char(c),
        CharClass::Flag => is_word_char(c) || c == '-',
        CharClass::Code => is_digit(c) || c == ';',
        CharClass::NumBody => is_digit(c) || c == '.' || c == '_',
        CharClass::LowerUscore => (97 <= c as u32 && c as u32 <= 122) || c == '_',
        CharClass::SliceBody => (97 <= c as u32 && c as u32 <= 122) || c == ':',
        CharClass::NonWs => !is_ws_char(c),
        CharClass::NotRBracket => c != ']',
        CharClass::NotRParen => c != ')',
        CharClass::NotBacktick => c != '`',
        CharClass::NotColon => c != ':',
    }
}

pub open spec fn class_spec(cc: CharClass) -> spec_fn(char) -> bool {
    |c: char| class_holds(cc, c)
}

pub fn class_test(cc: CharClass, c: char) -> (r: bool)
    ensures
        r == class_holds(cc, c),
{
    let u = c as u32;
    match cc {
        CharClass::NotNewline => c != '\n',
        CharClass::Word => word_char(c),
        CharClass::Flag => word_char(c) || c == '-',
        CharClass::Code => digit_char(c) || c == ';',
        CharClass::NumBody => digit_char(c) || c == '.' || c == '_',
        CharClass::LowerUscore => (97 <= u && u <= 122) || c == '_',
        CharClass::SliceBody => (97 <= u && u <= 122) || c == ':',
        CharClass::NonWs => !ws_char(c),
        CharClass::NotRBracket => c != ']',
        CharClass::NotRParen => c != ')',
        CharClass::NotBacktick => c != '`',
        CharClass::NotColon => c != ':',
    }
}

/// The first position at or after `i` whose character leaves the class,
/// or the length of `v` when the run reaches the end.
pub fn scan_while(v: &Vec<char>, i: usize, cc: CharClass) -> (r: usize)
    requires
        i <= v@.len(),
    ensures
        r == scan_end(v@, i as int, class_spec(cc)),
        i <= r <= v@.len(),
{
    let n = v.len();
    let mut j: usize = i;
    while j < n && class_test(cc, v[j])
        invariant
            i <= j <= n,
            n == v@.len(),
            forall|k: int| i <= k < j ==> class_holds(cc, #[trigger] v@[k]),
        decreases n - j,
    {
        j += 1;
    }
    proof {
        lemma_scan_end_eq(v@, i as int, j as int, class_spec(cc));
    }
    j
}

/// The end of the line that starts at or contains position `i`: the first
/// newline at or after `i`, or the end of the text.
pub open spec fn line_end(s: Seq<char>, i: int) -> int {
    scan_end(s, i, class_spec(CharClass::NotNewline))
}

pub fn find_line_end(v: &Vec<char>, i: usize) -> (r: usize)
    requires
        i <= v@.len(),
    ensures
        r == line_end(v@, i as int),
        i <= r <= v@.len(),
{
    scan_while(v, i, CharClass::NotNewline)
}

/// A line-start position: the very beginning of the text, or just after a
/// newline. This is what the `^` anchor of the patterns means.
pub open spec fn at_line_start(s: Seq<char>, i: int) -> bool {
    i == 0 || s[i - 1] == '\n'
}

pub fn line_start(v: &Vec<char>, i: usize) -> (r: bool)
    requires
        i < v@.len(),
    ensures
        r == at_line_start(v@, i as int),
{
    i == 0 || v[i - 1] == '\n'
}

} // verus!
