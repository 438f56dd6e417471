use vstd::prelude::*;
use crate::chars::{append_padded, append_str, chars_of, pad_to, string_of};
use crate::model::{HelpError, OperatorExample, OperatorHelpSection, OperatorHelpSections};
use crate::slug::{slug, slug_seq};
use crate::wrap::{filled_of, indent, indent_spec, wrap};
use vstd::string::StrSliceExecFns;

verus! {

// Rendering of the operator reference: aligned example rows, titled
// sections, and the two summary forms.

/// One example row: with a help column the snippet is padded to the shared
/// width and the help appended after a dash; alone it stands as it is.
pub open spec fn example_txt(e: OperatorExample, w: int) -> Seq<char> {
    match e.help {
        Some(h) => pad_to(e.snippet@, w) + " - "@ + h@,
        None => e.snippet@,
    }
}

impl OperatorExample {
    /// The example as an aligned row of the section's example column.
    pub fn to_txt(&self, width: usize) -> (r: String)
        ensures
            r@ == example_txt(*self, width as int),
    {
        match &self.help {
            Some(h) => {
                let mut out: Vec<char> = Vec::new();
                let sv = chars_of(self.snippet.as_str());
                append_padded(&mut out, &sv, width);
                append_str(&mut out, " - ");
                append_str(&mut out, h.as_str());
                proof {
                    assert(out@ =~= example_txt(*self, width as int));
                }
                string_of(&out)
            },
            None => self.snippet.clone(),
        }
    }
}

/// The widest snippet among the first `n` examples (0 when there is none).
pub open spec fn max_snippet_len(es: Seq<OperatorExample>, n: int) -> int
    decreases n,
{
    if n <= 0 {
        0
    } else {
        let l = es[n - 1].snippet@.len() as int;
        let p = max_snippet_len(es, n - 1);
        if l > p {
            l
        } else {
            p
        }
    }
}

fn compute_max_width(es: &Vec<OperatorExample>) -> (w: usize)
    ensures
        w == max_snippet_len(es@, es@.len() as int),
{
    let mut w: usize = 0;
    let mut i: usize = 0;
    while i < es.len()
        invariant
            i <= es@.len(),
            w == max_snippet_len(es@, i as int),
        decreases es@.len() - i,
    {
        let l = es[i].snippet.as_str().unicode_len();
        if l > w {
            w = l;
        }
        i += 1;
    }
    w
}

/// The example rows of a section, each indented and followed by a newline.
pub open spec fn section_examples_txt(es: Seq<OperatorExample>, w: int, n: int) -> Seq<char>
    decreases n,
{
    if n <= 0 {
        Seq::empty()
    } else {
        section_examples_txt(es, w, n - 1) + indent_spec(example_txt(es[n - 1], w), "    "@)
            + "\n"@
    }
}

/// The example rows for the Markdown code fence, unindented.
pub open spec fn section_examples_md(es: Seq<OperatorExample>, w: int, n: int) -> Seq<char>
    decreases n,
{
    if n <= 0 {
        Seq::empty()
    } else {
        section_examples_md(es, w, n - 1) + example_txt(es[n - 1], w) + "\n"@
    }
}

pub open spec fn prelude_txt(p: Option<String>) -> Seq<char> {
    match p {
        Some(t) => filled_of(t@) + "\n\n"@,
        None => Seq::empty(),
    }
}

pub open spec fn prelude_md(p: Option<String>) -> Seq<char> {
    match p {
        Some(t) => t@ + "\n\n"@,
        None => Seq::empty(),
    }
}

/// A section in terminal form: header, filled prelude, aligned and
/// indented example rows, and a closing blank gap.
pub open spec fn op_section_txt(sec: OperatorHelpSection) -> Seq<char> {
    "### "@ + sec.title@ + "\n\n"@ + prelude_txt(sec.prelude) + section_examples_txt(
        sec.examples@,
        max_snippet_len(sec.examples@, sec.examples@.len() as int),
        sec.examples@.len() as int,
    ) + "\n\n"@
}

/// A section in Markdown form: header, raw prelude, and the aligned rows
/// inside a `txt` code fence.
pub open spec fn op_section_md(sec: OperatorHelpSection) -> Seq<char> {
    "### "@ + sec.title@ + "\n\n"@ + prelude_md(sec.prelude) + "```txt\n"@ + section_examples_md(
        sec.examples@,
        max_snippet_len(sec.examples@, sec.examples@.len() as int),
        sec.examples@.len() as int,
    ) + "```\n\n"@
}

impl OperatorHelpSection {
    /// The section rendered for the terminal. The examples may not be
    /// empty: the column width of an empty example set is undefined.
    pub fn to_txt(&self) -> (r: String)
        requires
            self.examples@.len() > 0,
        ensures
            r@ == op_section_txt(*self),
    {
        let mut out: Vec<char> = Vec::new();
        append_str(&mut out, "### ");
        append_str(&mut out, self.title.as_str());
        append_str(&mut out, "\n\n");
        match &self.prelude {
            Some(p) => {
                let w = wrap(p.as_str());
                append_str(&mut out, w.as_str());
                append_str(&mut out, "\n\n");
            },
            None => {},
        }
        let ghost head = "### "@ + self.title@ + "\n\n"@ + prelude_txt(self.prelude);
        proof {
            assert(out@ =~= head + section_examples_txt(
                self.examples@,
                max_snippet_len(self.examples@, self.examples@.len() as int),
                0,
            ));
        }
        let w = compute_max_width(&self.examples);
        let mut i: usize = 0;
        while i < self.examples.len()
            invariant
                i <= self.examples@.len(),
                w == max_snippet_len(self.examples@, self.examples@.len() as int),
                out@ == head + section_examples_txt(self.examples@, w as int, i as int),
            decreases self.examples@.len() - i,
        {
            let row = self.examples[i].to_txt(w);
            let rowi = indent(row.as_str());
            append_str(&mut out, rowi.as_str());
            append_str(&mut out, "\n");
            proof {
                assert(out@ =~= head + (section_examples_txt(self.examples@, w as int, i as int)
                    + indent_spec(example_txt(self.examples@[i as int], w as int), "    "@)
                    + "\n"@));
            }
            i += 1;
        }
        append_str(&mut out, "\n\n");
        proof {
            assert(out@ =~= op_section_txt(*self));
        }
        string_of(&out)
    }

    /// The section rendered as Markdown. The examples may not be empty.
    pub fn to_md(&self) -> (r: String)
        requires
            self.examples@.len() > 0,
        ensures
            r@ == op_section_md(*self),
    {
        let mut out: Vec<char> = Vec::new();
        append_str(&mut out, "### ");
        append_str(&mut out, self.title.as_str());
        append_str(&mut out, "\n\n");
        match &self.prelude {
            Some(p) => {
                append_str(&mut out, p.as_str());
                append_str(&mut out, "\n\n");
            },
            None => {},
        }
        append_str(&mut out, "```txt\n");
        let ghost head = "### "@ + self.title@ + "\n\n"@ + prelude_md(self.prelude) + "```txt\n"@;
        proof {
            assert(out@ =~= head + section_examples_md(
                self.examples@,
                max_snippet_len(self.examples@, self.examples@.len() as int),
                0,
            ));
        }
        let w = compute_max_width(&self.examples);
        let mut i: usize = 0;
        while i < self.examples.len()
            invariant
                i <= self.examples@.len(),
                w == max_snippet_len(self.examples@, self.examples@.len() as int),
                out@ == head + section_examples_md(self.examples@, w as int, i as int),
            decreases self.examples@.len() - i,
        {
            let row = self.examples[i].to_txt(w);
            append_str(&mut out, row.as_str());
            append_str(&mut out, "\n");
            proof {
                assert(out@ =~= head + (section_examples_md(self.examples@, w as int, i as int)
                    + example_txt(self.examples@[i as int], w as int) + "\n"@));
            }
            i += 1;
        }
        append_str(&mut out, "```\n\n");
        proof {
            assert(out@ =~= op_section_md(*self));
        }
        string_of(&out)
    }
}

/// Every section of the reference has at least one example.
pub open spec fn all_sections_nonempty(secs: Seq<OperatorHelpSection>) -> bool {
    forall|k: int| 0 <= k < secs.len() ==> (#[trigger] secs[k].examples@.len()) > 0
}

/// The plain-text summary entries, one per section, joined by newlines.
pub open spec fn txt_summary_items(secs: Seq<OperatorHelpSection>, n: int) -> Seq<char>
    decreases n,
{
    if n <= 0 {
        Seq::empty()
    } else if n == 1 {
        "    - "@ + secs[0].title@
    } else {
        txt_summary_items(secs, n - 1) + "\n"@ + "    - "@ + secs[n - 1].title@
    }
}

/// The Markdown summary entries, one anchor link per section.
pub open spec fn md_summary_items(secs: Seq<OperatorHelpSection>, n: int) -> Seq<char>
    decreases n,
{
    if n <= 0 {
        Seq::empty()
    } else if n == 1 {
        "    - ["@ + secs[0].title@ + "](#"@ + slug_seq(secs[0].title@) + ")"@
    } else {
        md_summary_items(secs, n - 1) + "\n"@ + "    - ["@ + secs[n - 1].title@ + "](#"@
            + slug_seq(secs[n - 1].title@) + ")"@
    }
}

pub open spec fn op_txt_summary(ops: OperatorHelpSections) -> Seq<char> {
    "- Operators\n"@ + txt_summary_items(ops.0@, ops.0@.len() as int) + "\n"@
}

pub open spec fn op_md_summary(ops: OperatorHelpSections) -> Seq<char> {
    "- [Operators](#operators)\n"@ + md_summary_items(ops.0@, ops.0@.len() as int) + "\n"@
}

/// The concatenated terminal bodies of the first `n` sections.
pub open spec fn op_sections_txt(secs: Seq<OperatorHelpSection>, n: int) -> Seq<char>
    decreases n,
{
    if n <= 0 {
        Seq::empty()
    } else {
        op_sections_txt(secs, n - 1) + op_section_txt(secs[n - 1])
    }
}

pub open spec fn op_sections_md(secs: Seq<OperatorHelpSection>, n: int) -> Seq<char>
    decreases n,
{
    if n <= 0 {
        Seq::empty()
    } else {
        op_sections_md(secs, n - 1) + op_section_md(secs[n - 1])
    }
}

/// The whole operator block in terminal form.
pub open spec fn ops_block_txt(ops: OperatorHelpSections) -> Seq<char> {
    "## Operators\n\n"@ + op_sections_txt(ops.0@, ops.0@.len() as int)
}

/// The whole operator block in Markdown form.
pub open spec fn ops_block_md(ops: OperatorHelpSections) -> Seq<char> {
    "## Operators\n\n"@ + op_sections_md(ops.0@, ops.0@.len() as int)
}

impl OperatorHelpSections {
    /// The plain-text table of contents of the operator block.
    pub fn txt_summary(&self) -> (r: String)
        ensures
            r@ == op_txt_summary(*self),
    {
        let mut out: Vec<char> = Vec::new();
        append_str(&mut out, "- Operators\n");
        let ghost head = "- Operators\n"@;
        proof {
            assert(out@ =~= head + txt_summary_items(self.0@, 0));
        }
        let mut i: usize = 0;
        while i < self.0.len()
            invariant
                i <= self.0@.len(),
                out@ == head + txt_summary_items(self.0@, i as int),
            decreases self.0@.len() - i,
        {
            if i > 0 {
                append_str(&mut out, "\n");
            }
            append_str(&mut out, "    - ");
            append_str(&mut out, self.0[i].title.as_str());
            proof {
                if i == 0 {
                    assert(out@ =~= head + ("    - "@ + self.0@[0].title@));
                } else {
                    assert(out@ =~= head + (txt_summary_items(self.0@, i as int) + "\n"@ + "    - "@
                        + self.0@[i as int].title@));
                }
            }
            i += 1;
        }
        append_str(&mut out, "\n");
        proof {
            assert(out@ =~= op_txt_summary(*self));
        }
        string_of(&out)
    }

    /// The Markdown table of contents of the operator block, with
    /// anchor-slug links.
    pub fn md_summary(&self) -> (r: String)
        ensures
            r@ == op_md_summary(*self),
    {
        let mut out: Vec<char> = Vec::new();
        append_str(&mut out, "- [Operators](#operators)\n");
        let ghost head = "- [Operators](#operators)\n"@;
        proof {
            assert(out@ =~= head + md_summary_items(self.0@, 0));
        }
        let mut i: usize = 0;
        while i < self.0.len()
            invariant
                i <= self.0@.len(),
                out@ == head + md_summary_items(self.0@, i as int),
            decreases self.0@.len() - i,
        {
            if i > 0 {
                append_str(&mut out, "\n");
            }
            append_str(&mut out, "    - [");
            append_str(&mut out, self.0[i].title.as_str());
            append_str(&mut out, "](#");
            let sg = slug(self.0[i].title.as_str());
            append_str(&mut out, sg.as_str());
            append_str(&mut out, ")");
            proof {
                if i == 0 {
                    assert(out@ =~= head + ("    - ["@ + self.0@[0].title@ + "](#"@ + slug_seq(
                        self.0@[0].title@,
                    ) + ")"@));
                } else {
                    assert(out@ =~= head + (md_summary_items(self.0@, i as int) + "\n"@ + "    - ["@
                        + self.0@[i as int].title@ + "](#"@ + slug_seq(self.0@[i as int].title@)
                        + ")"@));
                }
            }
            i += 1;
        }
        append_str(&mut out, "\n");
        proof {
            assert(out@ =~= op_md_summary(*self));
        }
        string_of(&out)
    }

    /// The full operator block for the terminal. Fails with
    /// `EmptyExampleSet` exactly when some section has no examples.
    pub fn to_txt(&self) -> (r: Result<String, HelpError>)
        ensures
            r is Ok <==> all_sections_nonempty(self.0@),
            r is Ok ==> r->Ok_0@ == ops_block_txt(*self),
            r is Err ==> r->Err_0 == HelpError::EmptyExampleSet,
    {
        let mut out: Vec<char> = Vec::new();
        append_str(&mut out, "## Operators\n\n");
        let ghost head = "## Operators\n\n"@;
        proof {
            assert(out@ =~= head + op_sections_txt(self.0@, 0));
        }
        let mut i: usize = 0;
        while i < self.0.len()
            invariant
                i <= self.0@.len(),
                out@ == head + op_sections_txt(self.0@, i as int),
                forall|k: int| 0 <= k < i ==> (#[trigger] self.0@[k].examples@.len()) > 0,
            decreases self.0@.len() - i,
        {
            if self.0[i].examples.len() == 0 {
                return Err(HelpError::EmptyExampleSet);
            }
            let s = self.0[i].to_txt();
            append_str(&mut out, s.as_str());
            proof {
                assert(out@ =~= head + (op_sections_txt(self.0@, i as int) + op_section_txt(
                    self.0@[i as int],
                )));
            }
            i += 1;
        }
        Ok(string_of(&out))
    }

    /// The full operator block as Markdown. Fails with `EmptyExampleSet`
    /// exactly when some section has no examples.
    pub fn to_md(&self) -> (r: Result<String, HelpError>)
        ensures
            r is Ok <==> all_sections_nonempty(self.0@),
            r is Ok ==> r->Ok_0@ == ops_block_md(*self),
            r is Err ==> r->Err_0 == HelpError::EmptyExampleSet,
    {
        let mut out: Vec<char> = Vec::new();
        append_str(&mut out, "## Operators\n\n");
        let ghost head = "## Operators\n\n"@;
        proof {
            assert(out@ =~= head + op_sections_md(self.0@, 0));
        }
        let mut i: usize = 0;
        while i < self.0.len()
            invariant
                i <= self.0@.len(),
                out@ == head + op_sections_md(self.0@, i as int),
                forall|k: int| 0 <= k < i ==> (#[trigger] self.0@[k].examples@.len()) > 0,
            decreases self.0@.len() - i,
        {
            if self.0[i].examples.len() == 0 {
                return Err(HelpError::EmptyExampleSet);
            }
            let s = self.0[i].to_md();
            append_str(&mut out, s.as_str());
            proof {
                assert(out@ =~= head + (op_sections_md(self.0@, i as int) + op_section_md(
                    self.0@[i as int],
                )));
            }
            i += 1;
        }
        Ok(string_of(&out))
    }
}

} // verus!
