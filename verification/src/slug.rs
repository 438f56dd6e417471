use vstd::prelude::*;
use crate::chars::{chars_of, lower_char, lower_seq, string_of, to_lower_char};

verus! {

// Anchor-slug generation for Markdown summaries: lower-case the title,
// drop every character that is neither a space nor an ASCII alphanumeric,
// then turn the remaining spaces into hyphens. No further normalization is
// done: adjacent or trailing hyphens are kept as they come. Lowercasing is
// ASCII-only (`A`..`Z`): a character outside ASCII is never an ASCII
// alphanumeric, so it is dropped either way, except for the rare letters
// whose Unicode lowercase form is ASCII, which a Unicode folding would
// have kept.

pub open spec fn is_ascii_alnum(c: char) -> bool {
    (48 <= c as u32 && c as u32 <= 57) || (65 <= c as u32 && c as u32 <= 90) || (97 <= c as u32
        && c as u32 <= 122)
}

pub fn is_ascii_alnum_char(c: char) -> (r: bool)
    ensures
        r == is_ascii_alnum(c),
{
    let u = c as u32;
    (48 <= u && u <= 57) || (65 <= u && u <= 90) || (97 <= u && u <= 122)
}

/// The slug of a title, character by character: each character is
/// lower-cased, a space becomes a hyphen, an ASCII alphanumeric is kept,
/// and anything else is dropped.
pub open spec fn slug_seq(s: Seq<char>) -> Seq<char>
    decreases s.len(),
{
    if s.len() == 0 {
        Seq::empty()
    } else {
        let c = lower_char(s[0]);
        let rest = slug_seq(s.skip(1));
        if c == ' ' {
            seq!['-'] + rest
        } else if is_ascii_alnum(c) {
            seq![c] + rest
        } else {
            rest
        }
    }
}

/// URL-anchor-safe token for a section title.
pub fn slug(string: &str) -> (r: String)
    ensures
        r@ == slug_seq(string@),
{
    let v = chars_of(string);
    let mut out: Vec<char> = Vec::new();
    proof {
        assert(v@.skip(0) =~= v@);
        assert(out@ + slug_seq(v@.skip(0)) =~= slug_seq(v@));
    }
    let mut i: usize = 0;
    while i < v.len()
        invariant
            i <= v@.len(),
            v@ == string@,
            slug_seq(v@) == out@ + slug_seq(v@.skip(i as int)),
        decreases v@.len() - i,
    {
        proof {
            assert(v@.skip(i as int)[0] == v@[i as int]);
            assert(v@.skip(i as int).skip(1) =~= v@.skip(i + 1));
        }
        let ghost before = out@;
        let c = to_lower_char(v[i]);
        if c == ' ' {
            out.push('-');
            proof {
                assert(before + (seq!['-'] + slug_seq(v@.skip(i + 1))) =~= before.push('-')
                    + slug_seq(v@.skip(i + 1)));
            }
        } else if is_ascii_alnum_char(c) {
            out.push(c);
            proof {
                assert(before + (seq![lower_char(v@[i as int])] + slug_seq(v@.skip(i + 1))) =~= before.push(
                    lower_char(v@[i as int]),
                ) + slug_seq(v@.skip(i + 1)));
            }
        }
        i += 1;
    }
    proof {
        assert(slug_seq(v@.skip(v@.len() as int)) =~= Seq::<char>::empty());
        assert(out@ + Seq::<char>::empty() =~= out@);
    }
    string_of(&out)
}

/// Lowercasing is idempotent on single characters.
proof fn lemma_lower_idem(c: char)
    ensures
        lower_char(lower_char(c)) == lower_char(c),
{
}

/// Slug generation is case-insensitive: lower-casing the input first
/// changes nothing, since the slug lower-cases every character itself.
pub proof fn lemma_slug_case_insensitive(s: Seq<char>)
    ensures
        slug_seq(lower_seq(s)) == slug_seq(s),
    decreases s.len(),
{
    if s.len() == 0 {
        assert(lower_seq(s).len() == 0);
        assert(slug_seq(lower_seq(s)) =~= slug_seq(s));
    } else {
        let l = lower_seq(s);
        assert(l[0] == lower_char(s[0]));
        lemma_lower_idem(s[0]);
        assert(l.skip(1) =~= lower_seq(s.skip(1)));
        lemma_slug_case_insensitive(s.skip(1));
    }
}

/// Every character of a slug is a hyphen or a lower-case ASCII
/// alphanumeric, and is left unchanged by further lowercasing.
proof fn lemma_slug_chars(s: Seq<char>)
    ensures
        forall|j: int|
            0 <= j < slug_seq(s).len() ==> (#[trigger] slug_seq(s)[j] == '-' || (is_ascii_alnum(
                slug_seq(s)[j],
            ) && lower_char(slug_seq(s)[j]) == slug_seq(s)[j])),
    decreases s.len(),
{
    if s.len() == 0 {
    } else {
        lemma_slug_chars(s.skip(1));
        lemma_lower_idem(s[0]);
        let c = lower_char(s[0]);
        let rest = slug_seq(s.skip(1));
        if c == ' ' || is_ascii_alnum(c) {
            let h = if c == ' ' {
                '-'
            } else {
                c
            };
            assert(slug_seq(s) == seq![h] + rest);
            assert forall|j: int| 0 <= j < slug_seq(s).len() implies (#[trigger] slug_seq(s)[j]
                == '-' || (is_ascii_alnum(slug_seq(s)[j]) && lower_char(slug_seq(s)[j])
                == slug_seq(s)[j])) by {
                if j == 0 {
                    assert(slug_seq(s)[0] == h);
                } else {
                    assert(slug_seq(s)[j] == rest[j - 1]);
                }
            }
        } else {
            assert(slug_seq(s) == rest);
        }
    }
}

/// Applying the slug transform to a slug built from a space-free title
/// gives the slug back unchanged. A title with a space is the one kind of
/// input on which this fails: its slug holds a hyphen, and a second pass
/// drops the hyphen.
pub proof fn lemma_slug_idempotent(s: Seq<char>)
    requires
        forall|j: int| 0 <= j < s.len() ==> s[j] != ' ',
    ensures
        slug_seq(slug_seq(s)) == slug_seq(s),
    decreases s.len(),
{
    if s.len() == 0 {
    } else {
        let c = lower_char(s[0]);
        assert(c != ' ');
        lemma_lower_idem(s[0]);
        assert(forall|j: int| 0 <= j < s.skip(1).len() ==> s.skip(1)[j] != ' ');
        lemma_slug_idempotent(s.skip(1));
        let rest = slug_seq(s.skip(1));
        if is_ascii_alnum(c) {
            let w = seq![c] + rest;
            assert(slug_seq(s) == w);
            assert(w.len() > 0);
            assert(w[0] == c);
            assert(w.skip(1) =~= rest);
            assert(slug_seq(w) == seq![lower_char(c)] + slug_seq(rest));
            assert(seq![lower_char(c)] + slug_seq(rest) =~= seq![c] + rest);
        } else {
            assert(slug_seq(s) == rest);
        }
    }
}

} // verus!
