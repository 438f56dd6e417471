use vstd::prelude::*;
use crate::chars::{append_str, append_sub, chars_of, string_of};
use crate::scan::{scan_end, scan_while, class_holds, class_spec, is_digit, lemma_scan_end_eq, CharClass};

verus! {

// Terminal color annotation. A colored span is the text wrapped in an ANSI
// select-graphic-rendition escape: `ESC [ <code> m` before it and
// `ESC [ 0 m` after it. The stripping pass removes every such escape.

#[derive(Clone, Copy)]
pub enum Color {
    Red,
    Green,
    Yellow,
    Blue,
    Magenta,
    Cyan,
    Dim,
}

pub open spec fn color_code(c: Color) -> Seq<char> {
    match c {
        Color::Red => "31"@,
        Color::Green => "32"@,
        Color::Yellow => "33"@,
        Color::Blue => "34"@,
        Color::Magenta => "35"@,
        Color::Cyan => "36"@,
        Color::Dim => "2"@,
    }
}

pub fn color_code_str(c: Color) -> (r: &'static str)
    ensures
        r@ == color_code(c),
{
    match c {
        Color::Red => "31",
        Color::Green => "32",
        Color::Yellow => "33",
        Color::Blue => "34",
        Color::Magenta => "35",
        Color::Cyan => "36",
        Color::Dim => "2",
    }
}

/// `s` wrapped in the escape that selects `c` and the escape that resets.
pub open spec fn colored(c: Color, s: Seq<char>) -> Seq<char> {
    "\u{1b}["@ + color_code(c) + "m"@ + s + "\u{1b}[0m"@
}

/// Append `v[from..to]`, colored.
pub fn append_colored_sub(out: &mut Vec<char>, v: &Vec<char>, from: usize, to: usize, c: Color)
    requires
        from <= to <= v@.len(),
    ensures
        final(out)@ == old(out)@ + colored(c, v@.subrange(from as int, to as int)),
{
    append_str(out, "\u{1b}[");
    append_str(out, color_code_str(c));
    append_str(out, "m");
    append_sub(out, v, from, to);
    append_str(out, "\u{1b}[0m");
    proof {
        assert(out@ =~= old(out)@ + colored(c, v@.subrange(from as int, to as int)));
    }
}

/// Append a fixed text, colored.
pub fn append_colored_str(out: &mut Vec<char>, s: &str, c: Color)
    ensures
        final(out)@ == old(out)@ + colored(c, s@),
{
    append_str(out, "\u{1b}[");
    append_str(out, color_code_str(c));
    append_str(out, "m");
    append_str(out, s);
    append_str(out, "\u{1b}[0m");
    proof {
        assert(out@ =~= old(out)@ + colored(c, s@));
    }
}

/// An ANSI color escape at position `i`: `ESC [`, a run of digits and
/// semicolons, then `m`. The result is its length, or 0 when there is none.
pub open spec fn ansi_match_at(s: Seq<char>, i: int) -> int {
    if 0 <= i && i < s.len() && s[i] == '\u{1b}' && i + 1 < s.len() && s[i + 1] == '[' {
        let e = scan_end(s, i + 2, class_spec(CharClass::Code));
        if e < s.len() && s[e] == 'm' {
            e + 1 - i
        } else {
            0
        }
    } else {
        0
    }
}

pub fn ansi_match(v: &Vec<char>, i: usize) -> (m: usize)
    requires
        i < v@.len(),
    ensures
        m == ansi_match_at(v@, i as int),
        m > 0 ==> i + m <= v@.len(),
{
    let n = v.len();
    if v[i] == '\u{1b}' && i + 1 < n && v[i + 1] == '[' {
        let e = scan_while(v, i + 2, CharClass::Code);
        if e < n && v[e] == 'm' {
            e + 1 - i
        } else {
            0
        }
    } else {
        0
    }
}

/// The text with every ANSI color escape removed, scanning left to right.
pub open spec fn strip_from(s: Seq<char>, i: int) -> Seq<char>
    decreases s.len() - i,
{
    if i < 0 || i >= s.len() {
        Seq::empty()
    } else {
        let m = ansi_match_at(s, i);
        if 1 <= m && i + m <= s.len() {
            strip_from(s, i + m)
        } else {
            seq![s[i]] + strip_from(s, i + 1)
        }
    }
}

pub open spec fn strip_ansi_spec(s: Seq<char>) -> Seq<char> {
    strip_from(s, 0)
}

pub fn strip_ansi_vec(v: &Vec<char>) -> (r: Vec<char>)
    ensures
        r@ == strip_ansi_spec(v@),
{
    let mut out: Vec<char> = Vec::new();
    proof {
        assert(out@ + strip_from(v@, 0) =~= strip_from(v@, 0));
    }
    let mut i: usize = 0;
    while i < v.len()
        invariant
            i <= v@.len(),
            strip_ansi_spec(v@) == out@ + strip_from(v@, i as int),
        decreases v@.len() - i,
    {
        let m = ansi_match(v, i);
        let ghost before = out@;
        if m >= 1 {
            proof {
                assert(strip_from(v@, i as int) == strip_from(v@, i + m));
            }
            i += m;
        } else {
            out.push(v[i]);
            proof {
                assert(strip_from(v@, i as int) == seq![v@[i as int]] + strip_from(v@, i + 1));
                assert(before + (seq![v@[i as int]] + strip_from(v@, i + 1)) =~= before.push(
                    v@[i as int],
                ) + strip_from(v@, i + 1));
            }
            i += 1;
        }
    }
    proof {
        assert(out@ + strip_from(v@, v@.len() as int) =~= out@);
    }
    out
}

/// The text with every ANSI color escape sequence removed.
pub fn strip_ansi_colors(string: &str) -> (r: String)
    ensures
        r@ == strip_ansi_spec(string@),
{
    let v = chars_of(string);
    let out = strip_ansi_vec(&v);
    string_of(&out)
}

// ------------------------------------------------------------- the laws

/// Stripping walks over a stretch without escape characters unchanged.
proof fn lemma_strip_plain(s: Seq<char>, i: int, j: int)
    requires
        0 <= i <= j <= s.len(),
        forall|k: int| i <= k < j ==> (#[trigger] s[k]) != '\u{1b}',
    ensures
        strip_from(s, i) == s.subrange(i, j) + strip_from(s, j),
    decreases j - i,
{
    if i < j {
        assert(ansi_match_at(s, i) == 0);
        lemma_strip_plain(s, i + 1, j);
        assert(seq![s[i]] + (s.subrange(i + 1, j) + strip_from(s, j)) =~= s.subrange(i, j)
            + strip_from(s, j));
    } else {
        assert(s.subrange(i, i) + strip_from(s, i) =~= strip_from(s, i));
    }
}

/// Stripping drops a complete escape whose code run ends at `e`.
proof fn lemma_strip_escape(s: Seq<char>, i: int, e: int)
    requires
        0 <= i,
        i + 1 < s.len(),
        s[i] == '\u{1b}',
        s[i + 1] == '[',
        i + 2 <= e < s.len(),
        forall|k: int| i + 2 <= k < e ==> class_holds(CharClass::Code, #[trigger] s[k]),
        !class_holds(CharClass::Code, s[e]),
        s[e] == 'm',
    ensures
        strip_from(s, i) == strip_from(s, e + 1),
{
    lemma_scan_end_eq(s, i + 2, e, class_spec(CharClass::Code));
    assert(ansi_match_at(s, i) == e + 1 - i);
}

proof fn lemma_code_digits(c: Color)
    ensures
        1 <= color_code(c).len() <= 2,
        forall|k: int| 0 <= k < color_code(c).len() ==> is_digit(#[trigger] color_code(c)[k]),
{
    reveal_strlit("31");
    reveal_strlit("32");
    reveal_strlit("33");
    reveal_strlit("34");
    reveal_strlit("35");
    reveal_strlit("36");
    reveal_strlit("2");
    match c {
        Color::Red => {
            assert(color_code(c).len() == 2 && color_code(c)[0] == '3' && color_code(c)[1] == '1');
        },
        Color::Green => {
            assert(color_code(c).len() == 2 && color_code(c)[0] == '3' && color_code(c)[1] == '2');
        },
        Color::Yellow => {
            assert(color_code(c).len() == 2 && color_code(c)[0] == '3' && color_code(c)[1] == '3');
        },
        Color::Blue => {
            assert(color_code(c).len() == 2 && color_code(c)[0] == '3' && color_code(c)[1] == '4');
        },
        Color::Magenta => {
            assert(color_code(c).len() == 2 && color_code(c)[0] == '3' && color_code(c)[1] == '5');
        },
        Color::Cyan => {
            assert(color_code(c).len() == 2 && color_code(c)[0] == '3' && color_code(c)[1] == '6');
        },
        Color::Dim => {
            assert(color_code(c).len() == 1 && color_code(c)[0] == '2');
        },
    }
}

/// Stripping inverts coloring: a span colored from text that holds no
/// escape character strips back to exactly that text, so highlighting
/// changes the styling of a clean span and nothing else.
pub proof fn lemma_strip_colored(c: Color, x: Seq<char>)
    requires
        forall|j: int| 0 <= j < x.len() ==> (#[trigger] x[j]) != '\u{1b}',
    ensures
        strip_ansi_spec(colored(c, x)) == x,
{
    reveal_strlit("\u{1b}[");
    reveal_strlit("m");
    reveal_strlit("\u{1b}[0m");
    lemma_code_digits(c);
    let s = colored(c, x);
    let p = color_code(c).len() as int;
    let xl = x.len() as int;
    assert("\u{1b}["@.len() == 2 && "\u{1b}["@[0] == '\u{1b}' && "\u{1b}["@[1] == '[');
    assert("m"@.len() == 1 && "m"@[0] == 'm');
    assert("\u{1b}[0m"@.len() == 4 && "\u{1b}[0m"@[0] == '\u{1b}' && "\u{1b}[0m"@[1] == '['
        && "\u{1b}[0m"@[2] == '0' && "\u{1b}[0m"@[3] == 'm');
    assert(s.len() == 7 + p + xl);
    assert(s[0] == '\u{1b}');
    assert(s[1] == '[');
    assert(forall|k: int| 2 <= k < 2 + p ==> (#[trigger] s[k]) == color_code(c)[k - 2]);
    assert(forall|k: int| 2 <= k < 2 + p ==> class_holds(CharClass::Code, #[trigger] s[k]));
    assert(s[2 + p] == 'm');
    assert(!class_holds(CharClass::Code, s[2 + p]));
    lemma_strip_escape(s, 0, 2 + p);
    assert(forall|j: int| 3 + p <= j < 3 + p + xl ==> (#[trigger] s[j]) == x[j - 3 - p]);
    lemma_strip_plain(s, 3 + p, 3 + p + xl);
    assert(s.subrange(3 + p, 3 + p + xl) =~= x);
    let q = 3 + p + xl;
    assert(s[q] == '\u{1b}');
    assert(s[q + 1] == '[');
    assert(s[q + 2] == '0');
    assert(class_holds(CharClass::Code, s[q + 2]));
    assert(s[q + 3] == 'm');
    assert(!class_holds(CharClass::Code, s[q + 3]));
    lemma_strip_escape(s, q, q + 3);
    assert(strip_from(s, q + 4) =~= Seq::<char>::empty());
    assert(x + Seq::<char>::empty() =~= x);
}

} // verus!
