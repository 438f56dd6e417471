use vstd::prelude::*;
use crate::ansi::{append_colored_str, append_colored_sub, colored, Color};
use crate::chars::{
    append_str, chars_of, contains_seq, lower_seq, lower_vec, replace_all_spec, replace_str,
    seq_contains, string_of,
};
use crate::cheatsheet::{recombobulate_cheatsheet, recombobulate_spec, replace_links,
    replace_links_spec};
use crate::colorize::{colorize_functions_help, colorize_spec};
use crate::model::{
    Aggs, FunctionHelp, FunctionHelpSection, FunctionHelpSections, HelpError, OperatorHelpSections,
    ScrapingHelp,
};
use crate::render_ops::{all_sections_nonempty, op_txt_summary, op_md_summary, ops_block_md,
    ops_block_txt};
use crate::slug::{slug, slug_seq};
use crate::wrap::{filled_of, indent, indent_spec, wrap};
use vstd::string::StrSliceExecFns;

verus! {

// Rendering of function entries and of the documents that hold them: the
// function reference (with its case-insensitive section filter), the
// aggregation reference and the scraping reference.

// ------------------------------------------------------ Markdown escapes

/// Argument text with `*`, `<` and `>` escaped so that placeholders do not
/// collide with Markdown emphasis or angle-bracket syntax.
pub open spec fn escape_md_arg_spec(s: Seq<char>) -> Seq<char> {
    replace_all_spec(
        replace_all_spec(replace_all_spec(s, "*"@, "\\*"@), "<"@, "\\<"@),
        ">"@,
        "\\>"@,
    )
}

pub fn escape_markdown_argument(string: &str) -> (r: String)
    ensures
        r@ == escape_md_arg_spec(string@),
{
    let a = replace_str(string, "*", "\\*");
    let b = replace_str(a.as_str(), "<", "\\<");
    replace_str(b.as_str(), ">", "\\>")
}

/// Help prose with paragraph breaks and single newlines both collapsed to
/// an explicit inline break marker.
pub open spec fn escape_linebreaks_spec(s: Seq<char>) -> Seq<char> {
    replace_all_spec(replace_all_spec(s, "\n\n"@, "<br>"@), "\n"@, "<br>"@)
}

pub fn escape_markdown_linebreaks(string: &str) -> (r: String)
    ensures
        r@ == escape_linebreaks_spec(string@),
{
    let a = replace_str(string, "\n\n", "<br>");
    replace_str(a.as_str(), "\n", "<br>")
}

// -------------------------------------------------------- argument lists

/// An argument in terminal form: a placeholder (starting with `<`) is
/// dimmed, a concrete argument name is colored red.
pub open spec fn arg_colored(a: String) -> Seq<char> {
    if a@.len() > 0 && a@[0] == '<' {
        colored(Color::Dim, a@)
    } else {
        colored(Color::Red, a@)
    }
}

pub open spec fn join_args_spec(args: Seq<String>, n: int) -> Seq<char>
    decreases n,
{
    if n <= 0 {
        Seq::empty()
    } else if n == 1 {
        arg_colored(args[0])
    } else {
        join_args_spec(args, n - 1) + ", "@ + arg_colored(args[n - 1])
    }
}

/// The comma-joined, colored argument list of a call form.
pub fn join_arguments(args: &Vec<String>) -> (r: String)
    ensures
        r@ == join_args_spec(args@, args@.len() as int),
{
    let mut out: Vec<char> = Vec::new();
    proof {
        assert(out@ =~= join_args_spec(args@, 0));
    }
    let mut i: usize = 0;
    while i < args.len()
        invariant
            i <= args@.len(),
            out@ == join_args_spec(args@, i as int),
        decreases args@.len() - i,
    {
        if i > 0 {
            append_str(&mut out, ", ");
        }
        let a = &args[i];
        let l = a.as_str().unicode_len();
        if l > 0 && a.as_str().get_char(0) == '<' {
            append_colored_str(&mut out, a.as_str(), Color::Dim);
        } else {
            append_colored_str(&mut out, a.as_str(), Color::Red);
        }
        proof {
            if i == 0 {
                assert(out@ =~= arg_colored(args@[0]));
            } else {
                assert(out@ =~= join_args_spec(args@, i as int) + ", "@ + arg_colored(
                    args@[i as int],
                ));
            }
        }
        i += 1;
    }
    string_of(&out)
}

// ----------------------------------------------------------- call forms

pub open spec fn opt_args_view(o: Option<&Vec<String>>) -> Option<Seq<String>> {
    match o {
        Some(v) => Some(v@),
        None => None,
    }
}

pub open spec fn opt_vec_view(o: Option<Vec<String>>) -> Option<Seq<String>> {
    match o {
        Some(v) => Some(v@),
        None => None,
    }
}

/// One call-signature line of the terminal form.
pub open spec fn form_txt(nm: Seq<char>, args: Option<Seq<String>>, ret: Seq<char>) -> Seq<char> {
    match args {
        Some(a) => "- "@ + colored(Color::Cyan, nm) + "("@ + join_args_spec(a, a.len() as int)
            + ") -> "@ + colored(Color::Magenta, ret) + "\n"@,
        None => "- "@ + colored(Color::Cyan, nm) + " -> "@ + colored(Color::Magenta, ret) + "\n"@,
    }
}

fn append_form_txt(out: &mut Vec<char>, name: &str, args_opt: Option<&Vec<String>>, ret: &str)
    ensures
        final(out)@ == old(out)@ + form_txt(name@, opt_args_view(args_opt), ret@),
{
    append_str(out, "- ");
    append_colored_str(out, name, Color::Cyan);
    match args_opt {
        Some(a) => {
            append_str(out, "(");
            let j = join_arguments(a);
            append_str(out, j.as_str());
            append_str(out, ") -> ");
        },
        None => {
            append_str(out, " -> ");
        },
    }
    append_colored_str(out, ret, Color::Magenta);
    append_str(out, "\n");
    proof {
        assert(out@ =~= old(out)@ + form_txt(name@, opt_args_view(args_opt), ret@));
    }
}

pub open spec fn alias_forms_txt(
    names: Seq<String>,
    args: Option<Seq<String>>,
    ret: Seq<char>,
    n: int,
) -> Seq<char>
    decreases n,
{
    if n <= 0 {
        Seq::empty()
    } else {
        alias_forms_txt(names, args, ret, n - 1) + form_txt(names[n - 1]@, args, ret)
    }
}

pub open spec fn alt_forms_txt(
    alts: Seq<Vec<String>>,
    nm: Seq<char>,
    ret: Seq<char>,
    n: int,
) -> Seq<char>
    decreases n,
{
    if n <= 0 {
        Seq::empty()
    } else {
        alt_forms_txt(alts, nm, ret, n - 1) + form_txt(nm, Some(alts[n - 1]@), ret)
    }
}

pub open spec fn opt_names(o: Option<Vec<String>>) -> Seq<String> {
    match o {
        Some(v) => v@,
        None => Seq::empty(),
    }
}

pub open spec fn opt_alts(o: Option<Vec<Vec<String>>>) -> Seq<Vec<String>> {
    match o {
        Some(v) => v@,
        None => Seq::empty(),
    }
}

/// A function entry in terminal form: the primary call line, one line per
/// alias, one line per alternative argument list, then the filled,
/// indented and colorized help prose.
pub open spec fn fnhelp_txt(f: FunctionHelp) -> Seq<char> {
    form_txt(f.name@, opt_vec_view(f.arguments), f.returns@) + alias_forms_txt(
        opt_names(f.aliases),
        opt_vec_view(f.arguments),
        f.returns@,
        opt_names(f.aliases).len() as int,
    ) + alt_forms_txt(
        opt_alts(f.alternatives),
        f.name@,
        f.returns@,
        opt_alts(f.alternatives).len() as int,
    ) + colorize_spec(indent_spec(filled_of(f.help@), "    "@)) + "\n\n"@
}

impl FunctionHelp {
    /// The entry rendered for the terminal.
    pub fn to_txt(&self) -> (r: String)
        ensures
            r@ == fnhelp_txt(*self),
    {
        let mut out: Vec<char> = Vec::new();
        let args_ref: Option<&Vec<String>> = match &self.arguments {
            Some(a) => Some(a),
            None => None,
        };
        append_form_txt(&mut out, self.name.as_str(), args_ref, self.returns.as_str());
        proof {
            assert(opt_args_view(args_ref) == opt_vec_view(self.arguments));
            assert(out@ =~= form_txt(self.name@, opt_vec_view(self.arguments), self.returns@)
                + alias_forms_txt(
                opt_names(self.aliases),
                opt_vec_view(self.arguments),
                self.returns@,
                0,
            ));
        }
        let ghost head0 = form_txt(self.name@, opt_vec_view(self.arguments), self.returns@);
        match &self.aliases {
            Some(ns) => {
                let mut i: usize = 0;
                while i < ns.len()
                    invariant
                        i <= ns@.len(),
                        ns@ == opt_names(self.aliases),
                        opt_args_view(args_ref) == opt_vec_view(self.arguments),
                        out@ == head0 + alias_forms_txt(
                            opt_names(self.aliases),
                            opt_vec_view(self.arguments),
                            self.returns@,
                            i as int,
                        ),
                    decreases ns@.len() - i,
                {
                    append_form_txt(
                        &mut out,
                        ns[i].as_str(),
                        args_ref,
                        self.returns.as_str(),
                    );
                    proof {
                        assert(out@ =~= head0 + (alias_forms_txt(
                            opt_names(self.aliases),
                            opt_vec_view(self.arguments),
                            self.returns@,
                            i as int,
                        ) + form_txt(
                            opt_names(self.aliases)[i as int]@,
                            opt_vec_view(self.arguments),
                            self.returns@,
                        )));
                    }
                    i += 1;
                }
            },
            None => {},
        }
        let ghost head1 = head0 + alias_forms_txt(
            opt_names(self.aliases),
            opt_vec_view(self.arguments),
            self.returns@,
            opt_names(self.aliases).len() as int,
        );
        proof {
            assert(out@ =~= head1 + alt_forms_txt(
                opt_alts(self.alternatives),
                self.name@,
                self.returns@,
                0,
            ));
        }
        match &self.alternatives {
            Some(alts) => {
                let mut i: usize = 0;
                while i < alts.len()
                    invariant
                        i <= alts@.len(),
                        alts@ == opt_alts(self.alternatives),
                        out@ == head1 + alt_forms_txt(
                            opt_alts(self.alternatives),
                            self.name@,
                            self.returns@,
                            i as int,
                        ),
                    decreases alts@.len() - i,
                {
                    append_form_txt(
                        &mut out,
                        self.name.as_str(),
                        Some(&alts[i]),
                        self.returns.as_str(),
                    );
                    proof {
                        assert(out@ =~= head1 + (alt_forms_txt(
                            opt_alts(self.alternatives),
                            self.name@,
                            self.returns@,
                            i as int,
                        ) + form_txt(
                            self.name@,
                            Some(opt_alts(self.alternatives)[i as int]@),
                            self.returns@,
                        )));
                    }
                    i += 1;
                }
            },
            None => {},
        }
        let w = wrap(self.help.as_str());
        let wi = indent(w.as_str());
        let c = colorize_functions_help(wi.as_str());
        append_str(&mut out, c.as_str());
        append_str(&mut out, "\n\n");
        proof {
            assert(out@ =~= fnhelp_txt(*self));
        }
        string_of(&out)
    }
}

// ------------------------------------------------------- Markdown forms

pub open spec fn md_args(a: Seq<String>, n: int) -> Seq<char>
    decreases n,
{
    if n <= 0 {
        Seq::empty()
    } else if n == 1 {
        "*"@ + escape_md_arg_spec(a[0]@) + "*"@
    } else {
        md_args(a, n - 1) + ", "@ + "*"@ + escape_md_arg_spec(a[n - 1]@) + "*"@
    }
}

pub open spec fn bold_names(ns: Seq<String>, n: int) -> Seq<char>
    decreases n,
{
    if n <= 0 {
        Seq::empty()
    } else if n == 1 {
        "**"@ + ns[0]@ + "**"@
    } else {
        bold_names(ns, n - 1) + ", "@ + "**"@ + ns[n - 1]@ + "**"@
    }
}

/// One call-signature line of the Markdown form, the aliases listed
/// inline after the return type.
pub open spec fn form_md(
    nm: Seq<char>,
    args: Option<Seq<String>>,
    ret: Seq<char>,
    help: Seq<char>,
    aliases: Option<Seq<String>>,
) -> Seq<char> {
    "- **"@ + nm + "**"@ + (match args {
        Some(a) => "("@ + md_args(a, a.len() as int) + ")"@,
        None => Seq::empty(),
    }) + " -> `"@ + ret + "`"@ + (match aliases {
        Some(ns) => " (aliases: "@ + bold_names(ns, ns.len() as int) + ")"@,
        None => Seq::empty(),
    }) + ": "@ + escape_linebreaks_spec(help)
}

fn append_md_args(out: &mut Vec<char>, a: &Vec<String>)
    ensures
        final(out)@ == old(out)@ + md_args(a@, a@.len() as int),
{
    proof {
        assert(out@ =~= old(out)@ + md_args(a@, 0));
    }
    let mut i: usize = 0;
    while i < a.len()
        invariant
            i <= a@.len(),
            out@ == old(out)@ + md_args(a@, i as int),
        decreases a@.len() - i,
    {
        if i > 0 {
            append_str(out, ", ");
        }
        append_str(out, "*");
        let e = escape_markdown_argument(a[i].as_str());
        append_str(out, e.as_str());
        append_str(out, "*");
        proof {
            if i == 0 {
                assert(out@ =~= old(out)@ + ("*"@ + escape_md_arg_spec(a@[0]@) + "*"@));
            } else {
                assert(out@ =~= old(out)@ + (md_args(a@, i as int) + ", "@ + "*"@
                    + escape_md_arg_spec(a@[i as int]@) + "*"@));
            }
        }
        i += 1;
    }
}

fn append_bold_names(out: &mut Vec<char>, ns: &Vec<String>)
    ensures
        final(out)@ == old(out)@ + bold_names(ns@, ns@.len() as int),
{
    proof {
        assert(out@ =~= old(out)@ + bold_names(ns@, 0));
    }
    let mut i: usize = 0;
    while i < ns.len()
        invariant
            i <= ns@.len(),
            out@ == old(out)@ + bold_names(ns@, i as int),
        decreases ns@.len() - i,
    {
        if i > 0 {
            append_str(out, ", ");
        }
        append_str(out, "**");
        append_str(out, ns[i].as_str());
        append_str(out, "**");
        proof {
            if i == 0 {
                assert(out@ =~= old(out)@ + ("**"@ + ns@[0]@ + "**"@));
            } else {
                assert(out@ =~= old(out)@ + (bold_names(ns@, i as int) + ", "@ + "**"@
                    + ns@[i as int]@ + "**"@));
            }
        }
        i += 1;
    }
}

fn append_form_md(
    out: &mut Vec<char>,
    name: &str,
    args_opt: Option<&Vec<String>>,
    ret: &str,
    help: &str,
    aliases: Option<&Vec<String>>,
)
    ensures
        final(out)@ == old(out)@ + form_md(
            name@,
            opt_args_view(args_opt),
            ret@,
            help@,
            opt_args_view(aliases),
        ),
{
    append_str(out, "- **");
    append_str(out, name);
    append_str(out, "**");
    match args_opt {
        Some(a) => {
            append_str(out, "(");
            append_md_args(out, a);
            append_str(out, ")");
        },
        None => {},
    }
    append_str(out, " -> `");
    append_str(out, ret);
    append_str(out, "`");
    match aliases {
        Some(ns) => {
            append_str(out, " (aliases: ");
            append_bold_names(out, ns);
            append_str(out, ")");
        },
        None => {},
    }
    append_str(out, ": ");
    let e = escape_markdown_linebreaks(help);
    append_str(out, e.as_str());
    proof {
        assert(out@ =~= old(out)@ + form_md(
            name@,
            opt_args_view(args_opt),
            ret@,
            help@,
            opt_args_view(aliases),
        ));
    }
}

pub open spec fn alt_forms_md(alts: Seq<Vec<String>>, f: FunctionHelp, n: int) -> Seq<char>
    decreases n,
{
    if n <= 0 {
        Seq::empty()
    } else {
        alt_forms_md(alts, f, n - 1) + "\n"@ + form_md(
            f.name@,
            Some(alts[n - 1]@),
            f.returns@,
            f.help@,
            opt_aliases_view(f.aliases),
        )
    }
}

pub open spec fn opt_aliases_view(o: Option<Vec<String>>) -> Option<Seq<String>> {
    match o {
        Some(v) => Some(v@),
        None => None,
    }
}

/// A function entry as Markdown: one line for the primary call with the
/// aliases listed inline, one further line per alternative argument list,
/// and a closing newline.
pub open spec fn fnhelp_md(f: FunctionHelp) -> Seq<char> {
    form_md(f.name@, opt_vec_view(f.arguments), f.returns@, f.help@, opt_aliases_view(f.aliases))
        + alt_forms_md(opt_alts(f.alternatives), f, opt_alts(f.alternatives).len() as int) + "\n"@
}

impl FunctionHelp {
    /// The entry rendered as Markdown.
    pub fn to_md(&self) -> (r: String)
        ensures
            r@ == fnhelp_md(*self),
    {
        let mut out: Vec<char> = Vec::new();
        let args_ref: Option<&Vec<String>> = match &self.arguments {
            Some(a) => Some(a),
            None => None,
        };
        let aliases_ref: Option<&Vec<String>> = match &self.aliases {
            Some(a) => Some(a),
            None => None,
        };
        append_form_md(
            &mut out,
            self.name.as_str(),
            args_ref,
            self.returns.as_str(),
            self.help.as_str(),
            aliases_ref,
        );
        let ghost head0 = form_md(
            self.name@,
            opt_vec_view(self.arguments),
            self.returns@,
            self.help@,
            opt_aliases_view(self.aliases),
        );
        proof {
            assert(opt_args_view(args_ref) == opt_vec_view(self.arguments));
            assert(opt_args_view(aliases_ref) == opt_aliases_view(self.aliases));
            assert(out@ =~= head0 + alt_forms_md(opt_alts(self.alternatives), *self, 0));
        }
        match &self.alternatives {
            Some(alts) => {
                let mut i: usize = 0;
                while i < alts.len()
                    invariant
                        i <= alts@.len(),
                        alts@ == opt_alts(self.alternatives),
                        opt_args_view(aliases_ref) == opt_aliases_view(self.aliases),
                        out@ == head0 + alt_forms_md(opt_alts(self.alternatives), *self, i as int),
                    decreases alts@.len() - i,
                {
                    append_str(&mut out, "\n");
                    append_form_md(
                        &mut out,
                        self.name.as_str(),
                        Some(&alts[i]),
                        self.returns.as_str(),
                        self.help.as_str(),
                        aliases_ref,
                    );
                    proof {
                        assert(out@ =~= head0 + (alt_forms_md(
                            opt_alts(self.alternatives),
                            *self,
                            i as int,
                        ) + "\n"@ + form_md(
                            self.name@,
                            Some(opt_alts(self.alternatives)[i as int]@),
                            self.returns@,
                            self.help@,
                            opt_aliases_view(self.aliases),
                        )));
                    }
                    i += 1;
                }
            },
            None => {},
        }
        append_str(&mut out, "\n");
        proof {
            assert(out@ =~= fnhelp_md(*self));
        }
        string_of(&out)
    }
}

// --------------------------------------------------------- the sections

/// The concatenated terminal entries of a section, each indented.
pub open spec fn cat_fn_txt(fs: Seq<FunctionHelp>, n: int) -> Seq<char>
    decreases n,
{
    if n <= 0 {
        Seq::empty()
    } else {
        cat_fn_txt(fs, n - 1) + indent_spec(fnhelp_txt(fs[n - 1]), "    "@)
    }
}

pub open spec fn cat_fn_md(fs: Seq<FunctionHelp>, n: int) -> Seq<char>
    decreases n,
{
    if n <= 0 {
        Seq::empty()
    } else {
        cat_fn_md(fs, n - 1) + fnhelp_md(fs[n - 1])
    }
}

fn append_cat_fn_txt(out: &mut Vec<char>, fs: &Vec<FunctionHelp>)
    ensures
        final(out)@ == old(out)@ + cat_fn_txt(fs@, fs@.len() as int),
{
    proof {
        assert(out@ =~= old(out)@ + cat_fn_txt(fs@, 0));
    }
    let mut i: usize = 0;
    while i < fs.len()
        invariant
            i <= fs@.len(),
            out@ == old(out)@ + cat_fn_txt(fs@, i as int),
        decreases fs@.len() - i,
    {
        let t = fs[i].to_txt();
        let ti = indent(t.as_str());
        append_str(out, ti.as_str());
        proof {
            assert(out@ =~= old(out)@ + (cat_fn_txt(fs@, i as int) + indent_spec(
                fnhelp_txt(fs@[i as int]),
                "    "@,
            )));
        }
        i += 1;
    }
}

fn append_cat_fn_md(out: &mut Vec<char>, fs: &Vec<FunctionHelp>)
    ensures
        final(out)@ == old(out)@ + cat_fn_md(fs@, fs@.len() as int),
{
    proof {
        assert(out@ =~= old(out)@ + cat_fn_md(fs@, 0));
    }
    let mut i: usize = 0;
    while i < fs.len()
        invariant
            i <= fs@.len(),
            out@ == old(out)@ + cat_fn_md(fs@, i as int),
        decreases fs@.len() - i,
    {
        let t = fs[i].to_md();
        append_str(out, t.as_str());
        proof {
            assert(out@ =~= old(out)@ + (cat_fn_md(fs@, i as int) + fnhelp_md(fs@[i as int])));
        }
        i += 1;
    }
}

/// A function section in terminal form: a yellowed header, the indented
/// entries, and a closing newline.
pub open spec fn fnsection_txt(sec: FunctionHelpSection) -> Seq<char> {
    colored(Color::Yellow, "## "@ + sec.title@ + "\n\n"@) + cat_fn_txt(
        sec.functions@,
        sec.functions@.len() as int,
    ) + "\n"@
}

pub open spec fn fnsection_md(sec: FunctionHelpSection) -> Seq<char> {
    "## "@ + sec.title@ + "\n\n"@ + cat_fn_md(sec.functions@, sec.functions@.len() as int) + "\n"@
}

impl FunctionHelpSection {
    /// The section rendered for the terminal.
    pub fn to_txt(&self) -> (r: String)
        ensures
            r@ == fnsection_txt(*self),
    {
        let mut hv: Vec<char> = Vec::new();
        append_str(&mut hv, "## ");
        append_str(&mut hv, self.title.as_str());
        append_str(&mut hv, "\n\n");
        let mut out: Vec<char> = Vec::new();
        append_colored_sub(&mut out, &hv, 0, hv.len(), Color::Yellow);
        proof {
            assert(hv@.subrange(0, hv@.len() as int) =~= hv@);
            assert(hv@ =~= "## "@ + self.title@ + "\n\n"@);
        }
        append_cat_fn_txt(&mut out, &self.functions);
        append_str(&mut out, "\n");
        proof {
            assert(out@ =~= fnsection_txt(*self));
        }
        string_of(&out)
    }

    /// The section rendered as Markdown.
    pub fn to_md(&self) -> (r: String)
        ensures
            r@ == fnsection_md(*self),
    {
        let mut out: Vec<char> = Vec::new();
        append_str(&mut out, "## ");
        append_str(&mut out, self.title.as_str());
        append_str(&mut out, "\n\n");
        append_cat_fn_md(&mut out, &self.functions);
        append_str(&mut out, "\n");
        proof {
            assert(out@ =~= fnsection_md(*self));
        }
        string_of(&out)
    }
}

// ------------------------------------------------------------ filtering

/// A section survives the filter when its title contains the query,
/// comparing ASCII case-insensitively.
pub open spec fn title_matches(sec: FunctionHelpSection, q: Seq<char>) -> bool {
    contains_seq(lower_seq(sec.title@), lower_seq(q))
}

/// The sections among the first `n` whose title matches the query, in
/// their original order.
pub open spec fn filter_secs(
    secs: Seq<FunctionHelpSection>,
    q: Seq<char>,
    n: int,
) -> Seq<FunctionHelpSection>
    decreases n,
{
    if n <= 0 {
        Seq::empty()
    } else if title_matches(secs[n - 1], q) {
        filter_secs(secs, q, n - 1) + seq![secs[n - 1]]
    } else {
        filter_secs(secs, q, n - 1)
    }
}

/// The Operators block is kept exactly when the query contains the word
/// `operator`, case-insensitively; with no query it is always kept.
pub open spec fn keep_ops_q(q: Seq<char>) -> bool {
    contains_seq(lower_seq(q), "operator"@)
}

pub open spec fn opt_str_view(o: Option<String>) -> Option<Seq<char>> {
    match o {
        Some(s) => Some(s@),
        None => None,
    }
}

pub open spec fn keep_operators(sectq: Option<Seq<char>>) -> bool {
    match sectq {
        Some(q) => keep_ops_q(q),
        None => true,
    }
}

/// The filtered summary entries, `- title` joined by newlines.
pub open spec fn dash_items(secs: Seq<FunctionHelpSection>, n: int) -> Seq<char>
    decreases n,
{
    if n <= 0 {
        Seq::empty()
    } else if n == 1 {
        "- "@ + secs[0].title@
    } else {
        dash_items(secs, n - 1) + "\n"@ + "- "@ + secs[n - 1].title@
    }
}

/// The Markdown summary entries, `- [title](#slug)` joined by newlines.
pub open spec fn mdlink_items(secs: Seq<FunctionHelpSection>, n: int) -> Seq<char>
    decreases n,
{
    if n <= 0 {
        Seq::empty()
    } else if n == 1 {
        "- ["@ + secs[0].title@ + "](#"@ + slug_seq(secs[0].title@) + ")"@
    } else {
        mdlink_items(secs, n - 1) + "\n"@ + "- ["@ + secs[n - 1].title@ + "](#"@ + slug_seq(
            secs[n - 1].title@,
        ) + ")"@
    }
}

/// The concatenated terminal bodies of the first `n` sections.
pub open spec fn cat_sections_txt(secs: Seq<FunctionHelpSection>, n: int) -> Seq<char>
    decreases n,
{
    if n <= 0 {
        Seq::empty()
    } else {
        cat_sections_txt(secs, n - 1) + fnsection_txt(secs[n - 1])
    }
}

pub open spec fn cat_sections_md(secs: Seq<FunctionHelpSection>, n: int) -> Seq<char>
    decreases n,
{
    if n <= 0 {
        Seq::empty()
    } else {
        cat_sections_md(secs, n - 1) + fnsection_md(secs[n - 1])
    }
}

/// A prefix of the summary items does not depend on an element appended
/// after it.
proof fn lemma_dash_items_prefix(secs: Seq<FunctionHelpSection>, x: FunctionHelpSection, n: int)
    requires
        0 <= n <= secs.len(),
    ensures
        dash_items(secs.push(x), n) == dash_items(secs, n),
    decreases n,
{
    if n > 0 {
        lemma_dash_items_prefix(secs, x, n - 1);
        assert(secs.push(x)[n - 1] == secs[n - 1]);
        if n == 1 {
            assert(secs.push(x)[0] == secs[0]);
        }
    }
}

/// A prefix of the section bodies does not depend on an element appended
/// after it.
proof fn lemma_cat_txt_prefix(secs: Seq<FunctionHelpSection>, x: FunctionHelpSection, n: int)
    requires
        0 <= n <= secs.len(),
    ensures
        cat_sections_txt(secs.push(x), n) == cat_sections_txt(secs, n),
    decreases n,
{
    if n > 0 {
        lemma_cat_txt_prefix(secs, x, n - 1);
        assert(secs.push(x)[n - 1] == secs[n - 1]);
    }
}

/// The filtered document: all sections when there is no query, otherwise
/// the sections whose title matches it.
pub open spec fn filtered_of(
    doc: FunctionHelpSections,
    sectq: Option<Seq<char>>,
) -> Seq<FunctionHelpSection> {
    match sectq {
        None => doc.0@,
        Some(q) => filter_secs(doc.0@, q, doc.0@.len() as int),
    }
}

/// The function reference in terminal form: colorized prelude, the summary
/// (with the Operators entry only when the block is kept), the colorized
/// Operators block when kept, then the filtered section bodies in order.
pub open spec fn fsections_txt(
    doc: FunctionHelpSections,
    ops: OperatorHelpSections,
    sectq: Option<Seq<char>>,
    prelude: Seq<char>,
) -> Seq<char> {
    let keep = keep_operators(sectq);
    let filtered = filtered_of(doc, sectq);
    colorize_spec(prelude) + "\n"@ + (if keep {
        op_txt_summary(ops)
    } else {
        Seq::empty()
    }) + dash_items(filtered, filtered.len() as int) + "\n\n"@ + (if keep {
        colorize_spec(ops_block_txt(ops))
    } else {
        Seq::empty()
    }) + cat_sections_txt(filtered, filtered.len() as int)
}

/// The function reference as Markdown: raw prelude, anchor summary, the
/// Operators block, then every section body. Markdown does not filter.
pub open spec fn fsections_md(
    doc: FunctionHelpSections,
    ops: OperatorHelpSections,
    prelude: Seq<char>,
) -> Seq<char> {
    prelude + "\n"@ + op_md_summary(ops) + mdlink_items(doc.0@, doc.0@.len() as int) + "\n\n"@
        + ops_block_md(ops) + "\n"@ + cat_sections_md(doc.0@, doc.0@.len() as int)
}

impl FunctionHelpSections {
    /// The filtered terminal rendering. Fails with `EmptyExampleSet`
    /// exactly when the Operators block is kept and one of its sections
    /// has no examples; a query that does not keep the block cannot fail.
    #[verifier::rlimit(60)]
    pub fn to_txt(
        &self,
        operator_sections: &OperatorHelpSections,
        section: &Option<String>,
        prelude: &str,
    ) -> (r: Result<String, HelpError>)
        ensures
            r is Err <==> (keep_operators(opt_str_view(*section)) && !all_sections_nonempty(
                operator_sections.0@,
            )),
            r is Err ==> r->Err_0 == HelpError::EmptyExampleSet,
            r is Ok ==> r->Ok_0@ == fsections_txt(
                *self,
                *operator_sections,
                opt_str_view(*section),
                prelude@,
            ),
    {
        let ghost sectq = opt_str_view(*section);
        let mut has_q: bool = false;
        let mut qlow: Vec<char> = Vec::new();
        match section {
            Some(q) => {
                let qv = chars_of(q.as_str());
                qlow = lower_vec(&qv);
                has_q = true;
            },
            None => {},
        }
        proof {
            assert(has_q == (sectq is Some));
            if has_q {
                assert(qlow@ == lower_seq(sectq->Some_0));
            }
        }
        let keep: bool = if has_q {
            let opv = chars_of("operator");
            seq_contains(&qlow, &opv)
        } else {
            true
        };
        proof {
            assert(keep == keep_operators(sectq));
        }
        let mut ops_txt: Option<String> = None;
        if keep {
            match operator_sections.to_txt() {
                Ok(s) => {
                    ops_txt = Some(s);
                },
                Err(e) => {
                    return Err(e);
                },
            }
        }
        proof {
            assert(keep ==> (ops_txt is Some && ops_txt->0@ == ops_block_txt(*operator_sections)));
        }
        let mut out: Vec<char> = Vec::new();
        let cp = colorize_functions_help(prelude);
        append_str(&mut out, cp.as_str());
        append_str(&mut out, "\n");
        if keep {
            let ts = operator_sections.txt_summary();
            append_str(&mut out, ts.as_str());
        }
        let ghost head1 = colorize_spec(prelude@) + "\n"@ + (if keep {
            op_txt_summary(*operator_sections)
        } else {
            Seq::<char>::empty()
        });
        proof {
            assert(out@ =~= head1);
            assert(out@ =~= head1 + dash_items(Seq::<FunctionHelpSection>::empty(), 0));
        }
        let ghost mut filt: Seq<FunctionHelpSection> = Seq::empty();
        let mut first: bool = true;
        let mut i: usize = 0;
        while i < self.0.len()
            invariant
                i <= self.0@.len(),
                has_q == (sectq is Some),
                has_q ==> qlow@ == lower_seq(sectq->Some_0),
                filt == (match sectq {
                    None => self.0@.subrange(0, i as int),
                    Some(q) => filter_secs(self.0@, q, i as int),
                }),
                first <==> filt.len() == 0,
                out@ == head1 + dash_items(filt, filt.len() as int),
            decreases self.0@.len() - i,
        {
            let m: bool = if has_q {
                let tv = chars_of(self.0[i].title.as_str());
                let tl = lower_vec(&tv);
                seq_contains(&tl, &qlow)
            } else {
                true
            };
            proof {
                if has_q {
                    assert(m == title_matches(self.0@[i as int], sectq->Some_0));
                }
            }
            if m {
                if !first {
                    append_str(&mut out, "\n");
                }
                append_str(&mut out, "- ");
                append_str(&mut out, self.0[i].title.as_str());
                proof {
                    let sec = self.0@[i as int];
                    let filt2 = filt.push(sec);
                    if sectq is Some {
                        assert(filter_secs(self.0@, sectq->Some_0, i + 1) =~= filt2);
                    } else {
                        assert(self.0@.subrange(0, i + 1) =~= filt2);
                    }
                    lemma_dash_items_prefix(filt, sec, filt.len() as int);
                    if filt.len() == 0 {
                        assert(dash_items(filt2, 1) == "- "@ + sec.title@);
                        assert(out@ =~= head1 + dash_items(filt2, filt2.len() as int));
                    } else {
                        assert(dash_items(filt2, filt2.len() as int) == dash_items(
                            filt,
                            filt.len() as int,
                        ) + "\n"@ + "- "@ + sec.title@);
                        assert(out@ =~= head1 + dash_items(filt2, filt2.len() as int));
                    }
                    filt = filt2;
                }
                first = false;
            } else {
                proof {
                    if sectq is Some {
                        assert(filter_secs(self.0@, sectq->Some_0, i + 1) == filt);
                    }
                }
            }
            i += 1;
        }
        proof {
            if sectq is None {
                assert(self.0@.subrange(0, self.0@.len() as int) =~= self.0@);
            }
            assert(filt == filtered_of(*self, sectq));
        }
        append_str(&mut out, "\n\n");
        if keep {
            match &ops_txt {
                Some(s) => {
                    let c = colorize_functions_help(s.as_str());
                    append_str(&mut out, c.as_str());
                },
                None => {
                    proof {
                        assert(false);
                    }
                },
            }
        }
        let ghost head2 = head1 + dash_items(filt, filt.len() as int) + "\n\n"@ + (if keep {
            colorize_spec(ops_block_txt(*operator_sections))
        } else {
            Seq::<char>::empty()
        });
        proof {
            assert(out@ =~= head2);
            assert(out@ =~= head2 + cat_sections_txt(Seq::<FunctionHelpSection>::empty(), 0));
        }
        let ghost mut filt2: Seq<FunctionHelpSection> = Seq::empty();
        let mut i: usize = 0;
        while i < self.0.len()
            invariant
                i <= self.0@.len(),
                has_q == (sectq is Some),
                has_q ==> qlow@ == lower_seq(sectq->Some_0),
                filt2 == (match sectq {
                    None => self.0@.subrange(0, i as int),
                    Some(q) => filter_secs(self.0@, q, i as int),
                }),
                out@ == head2 + cat_sections_txt(filt2, filt2.len() as int),
            decreases self.0@.len() - i,
        {
            let m: bool = if has_q {
                let tv = chars_of(self.0[i].title.as_str());
                let tl = lower_vec(&tv);
                seq_contains(&tl, &qlow)
            } else {
                true
            };
            proof {
                if has_q {
                    assert(m == title_matches(self.0@[i as int], sectq->Some_0));
                }
            }
            if m {
                let b = self.0[i].to_txt();
                append_str(&mut out, b.as_str());
                proof {
                    let sec = self.0@[i as int];
                    let f2 = filt2.push(sec);
                    if sectq is Some {
                        assert(filter_secs(self.0@, sectq->Some_0, i + 1) =~= f2);
                    } else {
                        assert(self.0@.subrange(0, i + 1) =~= f2);
                    }
                    lemma_cat_txt_prefix(filt2, sec, filt2.len() as int);
                    assert(cat_sections_txt(f2, f2.len() as int) == cat_sections_txt(
                        filt2,
                        filt2.len() as int,
                    ) + fnsection_txt(sec));
                    assert(out@ =~= head2 + cat_sections_txt(f2, f2.len() as int));
                    filt2 = f2;
                }
            } else {
                proof {
                    if sectq is Some {
                        assert(filter_secs(self.0@, sectq->Some_0, i + 1) == filt2);
                    }
                }
            }
            i += 1;
        }
        proof {
            if sectq is None {
                assert(self.0@.subrange(0, self.0@.len() as int) =~= self.0@);
            }
            assert(filt2 == filtered_of(*self, sectq));
            assert(out@ =~= fsections_txt(*self, *operator_sections, sectq, prelude@));
        }
        Ok(string_of(&out))
    }

    /// The Markdown rendering. Fails with `EmptyExampleSet` exactly when
    /// some operator section has no examples.
    pub fn to_md(&self, operator_sections: &OperatorHelpSections, prelude: &str) -> (r: Result<
        String,
        HelpError,
    >)
        ensures
            r is Ok <==> all_sections_nonempty(operator_sections.0@),
            r is Err ==> r->Err_0 == HelpError::EmptyExampleSet,
            r is Ok ==> r->Ok_0@ == fsections_md(*self, *operator_sections, prelude@),
    {
        let ops_md = match operator_sections.to_md() {
            Ok(s) => s,
            Err(e) => {
                return Err(e);
            },
        };
        let mut out: Vec<char> = Vec::new();
        append_str(&mut out, prelude);
        append_str(&mut out, "\n");
        let ms = operator_sections.md_summary();
        append_str(&mut out, ms.as_str());
        let ghost head1 = prelude@ + "\n"@ + op_md_summary(*operator_sections);
        proof {
            assert(out@ =~= head1 + mdlink_items(self.0@, 0));
        }
        let mut i: usize = 0;
        while i < self.0.len()
            invariant
                i <= self.0@.len(),
                out@ == head1 + mdlink_items(self.0@, i as int),
            decreases self.0@.len() - i,
        {
            if i > 0 {
                append_str(&mut out, "\n");
            }
            append_str(&mut out, "- [");
            append_str(&mut out, self.0[i].title.as_str());
            append_str(&mut out, "](#");
            let sg = slug(self.0[i].title.as_str());
            append_str(&mut out, sg.as_str());
            append_str(&mut out, ")");
            proof {
                if i == 0 {
                    assert(out@ =~= head1 + ("- ["@ + self.0@[0].title@ + "](#"@ + slug_seq(
                        self.0@[0].title@,
                    ) + ")"@));
                } else {
                    assert(out@ =~= head1 + (mdlink_items(self.0@, i as int) + "\n"@ + "- ["@
                        + self.0@[i as int].title@ + "](#"@ + slug_seq(self.0@[i as int].title@)
                        + ")"@));
                }
            }
            i += 1;
        }
        append_str(&mut out, "\n\n");
        append_str(&mut out, ops_md.as_str());
        append_str(&mut out, "\n");
        let ghost head2 = head1 + mdlink_items(self.0@, self.0@.len() as int) + "\n\n"@
            + ops_block_md(*operator_sections) + "\n"@;
        proof {
            assert(out@ =~= head2 + cat_sections_md(self.0@, 0));
        }
        let mut i: usize = 0;
        while i < self.0.len()
            invariant
                i <= self.0@.len(),
                out@ == head2 + cat_sections_md(self.0@, i as int),
            decreases self.0@.len() - i,
        {
            let b = self.0[i].to_md();
            append_str(&mut out, b.as_str());
            proof {
                assert(out@ =~= head2 + (cat_sections_md(self.0@, i as int) + fnsection_md(
                    self.0@[i as int],
                )));
            }
            i += 1;
        }
        proof {
            assert(out@ =~= fsections_md(*self, *operator_sections, prelude@));
        }
        Ok(string_of(&out))
    }
}

// ------------------------------------------ aggregates and scraping DSL

/// The aggregation reference in terminal form: colorized prelude, then
/// every entry, indented.
pub open spec fn aggs_txt(a: Aggs, prelude: Seq<char>) -> Seq<char> {
    colorize_spec(prelude) + "\n"@ + cat_fn_txt(a.0@, a.0@.len() as int)
}

pub open spec fn aggs_md(a: Aggs, prelude: Seq<char>) -> Seq<char> {
    prelude + "\n"@ + cat_fn_md(a.0@, a.0@.len() as int)
}

impl Aggs {
    /// The aggregation reference rendered for the terminal.
    pub fn to_txt(&self, prelude: &str) -> (r: String)
        ensures
            r@ == aggs_txt(*self, prelude@),
    {
        let mut out: Vec<char> = Vec::new();
        let cp = colorize_functions_help(prelude);
        append_str(&mut out, cp.as_str());
        append_str(&mut out, "\n");
        append_cat_fn_txt(&mut out, &self.0);
        proof {
            assert(out@ =~= aggs_txt(*self, prelude@));
        }
        string_of(&out)
    }

    /// The aggregation reference rendered as Markdown.
    pub fn to_md(&self, prelude: &str) -> (r: String)
        ensures
            r@ == aggs_md(*self, prelude@),
    {
        let mut out: Vec<char> = Vec::new();
        append_str(&mut out, prelude);
        append_str(&mut out, "\n");
        append_cat_fn_md(&mut out, &self.0);
        proof {
            assert(out@ =~= aggs_md(*self, prelude@));
        }
        string_of(&out)
    }
}

/// The scraping reference in terminal form: the rewritten scraping
/// cheatsheet, then the selector and extractor entries under yellowed
/// headers.
pub open spec fn scraping_txt(sh: ScrapingHelp, cheatsheet: Seq<char>) -> Seq<char> {
    recombobulate_spec(cheatsheet) + "\n\n"@ + colored(Color::Yellow, "## Selector functions"@)
        + "\n\n"@ + cat_fn_txt(sh.selectors@, sh.selectors@.len() as int) + "\n"@ + colored(
        Color::Yellow,
        "## Extractor functions"@,
    ) + "\n\n"@ + cat_fn_txt(sh.extractors@, sh.extractors@.len() as int)
}

/// The scraping reference as Markdown, the cheatsheet's cross-reference
/// links replaced by plain code spans.
pub open spec fn scraping_md(sh: ScrapingHelp, cheatsheet: Seq<char>) -> Seq<char> {
    replace_links_spec(cheatsheet) + "\n\n## Selector functions\n\n"@ + cat_fn_md(
        sh.selectors@,
        sh.selectors@.len() as int,
    ) + "\n## Extractor functions\n\n"@ + cat_fn_md(sh.extractors@, sh.extractors@.len() as int)
}

impl ScrapingHelp {
    /// The scraping reference rendered for the terminal.
    pub fn to_txt(&self, cheatsheet: &str) -> (r: String)
        ensures
            r@ == scraping_txt(*self, cheatsheet@),
    {
        let mut out: Vec<char> = Vec::new();
        let ch = recombobulate_cheatsheet(cheatsheet);
        append_str(&mut out, ch.as_str());
        append_str(&mut out, "\n\n");
        append_colored_str(&mut out, "## Selector functions", Color::Yellow);
        append_str(&mut out, "\n\n");
        append_cat_fn_txt(&mut out, &self.selectors);
        append_str(&mut out, "\n");
        append_colored_str(&mut out, "## Extractor functions", Color::Yellow);
        append_str(&mut out, "\n\n");
        append_cat_fn_txt(&mut out, &self.extractors);
        proof {
            assert(out@ =~= scraping_txt(*self, cheatsheet@));
        }
        string_of(&out)
    }

    /// The scraping reference rendered as Markdown.
    pub fn to_md(&self, cheatsheet: &str) -> (r: String)
        ensures
            r@ == scraping_md(*self, cheatsheet@),
    {
        let mut out: Vec<char> = Vec::new();
        let ch = replace_links(cheatsheet);
        append_str(&mut out, ch.as_str());
        append_str(&mut out, "\n\n## Selector functions\n\n");
        append_cat_fn_md(&mut out, &self.selectors);
        append_str(&mut out, "\n## Extractor functions\n\n");
        append_cat_fn_md(&mut out, &self.extractors);
        proof {
            assert(out@ =~= scraping_md(*self, cheatsheet@));
        }
        string_of(&out)
    }
}

// ------------------------------------------------------------- the laws

/// Every section that the filter keeps has a title that contains the
/// query, case-insensitively, and no section whose title does not contain
/// it is kept: the filtered rendering lists exactly `filter_secs`, so
/// this pins what the filtered output can show.
pub proof fn lemma_filter_titles(secs: Seq<FunctionHelpSection>, q: Seq<char>, n: int)
    requires
        0 <= n <= secs.len(),
    ensures
        forall|j: int|
            0 <= j < filter_secs(secs, q, n).len() ==> title_matches(
                #[trigger] filter_secs(secs, q, n)[j],
                q,
            ),
        forall|k: int|
            0 <= k < n && !title_matches(#[trigger] secs[k], q) ==> !filter_secs(
                secs,
                q,
                n,
            ).contains(secs[k]),
    decreases n,
{
    if n > 0 {
        lemma_filter_titles(secs, q, n - 1);
        let f = filter_secs(secs, q, n);
        let fp = filter_secs(secs, q, n - 1);
        if title_matches(secs[n - 1], q) {
            assert(forall|j: int| 0 <= j < fp.len() ==> f[j] == fp[j]);
            assert(f[f.len() - 1] == secs[n - 1]);
        }
        assert forall|k: int| 0 <= k < n && !title_matches(#[trigger] secs[k], q) implies !f.contains(
            secs[k],
        ) by {
            if f.contains(secs[k]) {
                let j = choose|j: int| 0 <= j < f.len() && f[j] == secs[k];
                assert(title_matches(f[j], q));
            }
        }
    }
}

/// The Operators block of the filtered terminal rendering is kept exactly
/// when the query contains the word `operator`, case-insensitively: with
/// it, the summary opens with the Operators entry and the colorized block
/// stands before the section bodies; without it, neither appears.
pub proof fn lemma_operator_block_retention(
    doc: FunctionHelpSections,
    ops: OperatorHelpSections,
    q: Seq<char>,
    prelude: Seq<char>,
)
    ensures
        contains_seq(lower_seq(q), "operator"@) ==> fsections_txt(doc, ops, Some(q), prelude)
            == colorize_spec(prelude) + "\n"@ + op_txt_summary(ops) + dash_items(
            filtered_of(doc, Some(q)),
            filtered_of(doc, Some(q)).len() as int,
        ) + "\n\n"@ + colorize_spec(ops_block_txt(ops)) + cat_sections_txt(
            filtered_of(doc, Some(q)),
            filtered_of(doc, Some(q)).len() as int,
        ),
        !contains_seq(lower_seq(q), "operator"@) ==> fsections_txt(doc, ops, Some(q), prelude)
            == colorize_spec(prelude) + "\n"@ + dash_items(
            filtered_of(doc, Some(q)),
            filtered_of(doc, Some(q)).len() as int,
        ) + "\n\n"@ + cat_sections_txt(
            filtered_of(doc, Some(q)),
            filtered_of(doc, Some(q)).len() as int,
        ),
{
    if !contains_seq(lower_seq(q), "operator"@) {
        let filtered = filtered_of(doc, Some(q));
        assert(colorize_spec(prelude) + "\n"@ + Seq::<char>::empty() + dash_items(
            filtered,
            filtered.len() as int,
        ) + "\n\n"@ + Seq::<char>::empty() + cat_sections_txt(filtered, filtered.len() as int)
            =~= colorize_spec(prelude) + "\n"@ + dash_items(filtered, filtered.len() as int)
            + "\n\n"@ + cat_sections_txt(filtered, filtered.len() as int));
    }
}

/// No newline anywhere in the text.
pub open spec fn no_nl(s: Seq<char>) -> bool {
    forall|j: int| 0 <= j < s.len() ==> (#[trigger] s[j]) != '\n'
}

/// The number of newline characters in the text.
pub open spec fn count_nl(s: Seq<char>) -> int
    decreases s.len(),
{
    if s.len() <= 0 {
        0
    } else {
        (if s[0] == '\n' {
            1int
        } else {
            0int
        }) + count_nl(s.skip(1))
    }
}

proof fn lemma_count_nl_cat(a: Seq<char>, b: Seq<char>)
    ensures
        count_nl(a + b) == count_nl(a) + count_nl(b),
    decreases a.len(),
{
    if a.len() == 0 {
        assert(a + b =~= b);
    } else {
        assert((a + b)[0] == a[0]);
        assert((a + b).skip(1) =~= a.skip(1) + b);
        lemma_count_nl_cat(a.skip(1), b);
    }
}

proof fn lemma_count_nl_zero(s: Seq<char>)
    requires
        no_nl(s),
    ensures
        count_nl(s) == 0,
    decreases s.len(),
{
    if s.len() > 0 {
        assert(forall|j: int| 0 <= j < s.skip(1).len() ==> (#[trigger] s.skip(1)[j]) == s[j + 1]);
        lemma_count_nl_zero(s.skip(1));
    }
}

proof fn lemma_no_nl_cat(a: Seq<char>, b: Seq<char>)
    requires
        no_nl(a),
        no_nl(b),
    ensures
        no_nl(a + b),
{
    assert forall|j: int| 0 <= j < (a + b).len() implies (#[trigger] (a + b)[j]) != '\n' by {
        if j < a.len() {
            assert((a + b)[j] == a[j]);
        } else {
            assert((a + b)[j] == b[j - a.len()]);
        }
    }
}

/// Replacement cannot introduce a newline when neither the text nor the
/// replacement holds one.
proof fn lemma_replace_keeps_no_nl(s: Seq<char>, pat: Seq<char>, rep: Seq<char>, i: int)
    requires
        no_nl(s),
        no_nl(rep),
        0 <= i <= s.len(),
    ensures
        no_nl(crate::chars::replace_from(s, pat, rep, i)),
    decreases s.len() - i,
{
    if i < s.len() {
        if pat.len() > 0 && crate::chars::occurs_at(s, pat, i) {
            lemma_replace_keeps_no_nl(s, pat, rep, i + pat.len() as int);
            lemma_no_nl_cat(rep, crate::chars::replace_from(s, pat, rep, i + pat.len() as int));
        } else {
            lemma_replace_keeps_no_nl(s, pat, rep, i + 1);
            assert(no_nl(seq![s[i]])) by {
                assert(seq![s[i]][0] == s[i]);
            }
            lemma_no_nl_cat(seq![s[i]], crate::chars::replace_from(s, pat, rep, i + 1));
        }
    }
}

proof fn lemma_br_no_nl()
    ensures
        no_nl("<br>"@),
{
    reveal_strlit("<br>");
    assert forall|j: int| 0 <= j < "<br>"@.len() implies (#[trigger] "<br>"@[j]) != '\n' by {
        assert("<br>"@[0] == '<' && "<br>"@[1] == 'b' && "<br>"@[2] == 'r' && "<br>"@[3] == '>');
    }
}

/// Replacing every newline by the break marker leaves no newline behind,
/// whatever the text held.
proof fn lemma_replace_newline_erases(s: Seq<char>, i: int)
    requires
        0 <= i <= s.len(),
    ensures
        no_nl(crate::chars::replace_from(s, "\n"@, "<br>"@, i)),
    decreases s.len() - i,
{
    reveal_strlit("\n");
    lemma_br_no_nl();
    if i < s.len() {
        if crate::chars::occurs_at(s, "\n"@, i) {
            lemma_replace_newline_erases(s, i + 1);
            lemma_no_nl_cat("<br>"@, crate::chars::replace_from(s, "\n"@, "<br>"@, i + 1));
        } else {
            if s[i] == '\n' {
                assert(s.subrange(i, i + 1) =~= "\n"@);
            }
            lemma_replace_newline_erases(s, i + 1);
            assert(no_nl(seq![s[i]])) by {
                assert(seq![s[i]][0] == s[i]);
            }
            lemma_no_nl_cat(seq![s[i]], crate::chars::replace_from(s, "\n"@, "<br>"@, i + 1));
        }
    }
}

proof fn lemma_escape_linebreaks_no_nl(h: Seq<char>)
    ensures
        no_nl(escape_linebreaks_spec(h)),
{
    let t = replace_all_spec(h, "\n\n"@, "<br>"@);
    lemma_replace_newline_erases(t, 0);
}

proof fn lemma_escape_md_arg_no_nl(a: Seq<char>)
    requires
        no_nl(a),
    ensures
        no_nl(escape_md_arg_spec(a)),
{
    reveal_strlit("\\*");
    reveal_strlit("\\<");
    reveal_strlit("\\>");
    assert(no_nl("\\*"@)) by {
        assert("\\*"@[0] == '\\' && "\\*"@[1] == '*');
    }
    assert(no_nl("\\<"@)) by {
        assert("\\<"@[0] == '\\' && "\\<"@[1] == '<');
    }
    assert(no_nl("\\>"@)) by {
        assert("\\>"@[0] == '\\' && "\\>"@[1] == '>');
    }
    lemma_replace_keeps_no_nl(a, "*"@, "\\*"@, 0);
    lemma_replace_keeps_no_nl(replace_all_spec(a, "*"@, "\\*"@), "<"@, "\\<"@, 0);
    lemma_replace_keeps_no_nl(
        replace_all_spec(replace_all_spec(a, "*"@, "\\*"@), "<"@, "\\<"@),
        ">"@,
        "\\>"@,
        0,
    );
}

proof fn lemma_literal_no_nl()
    ensures
        no_nl("- **"@),
        no_nl("**"@),
        no_nl("("@),
        no_nl(")"@),
        no_nl(" -> `"@),
        no_nl("`"@),
        no_nl(" (aliases: "@),
        no_nl(", "@),
        no_nl("*"@),
        no_nl(": "@),
{
    reveal_strlit("- **");
    reveal_strlit("**");
    reveal_strlit("(");
    reveal_strlit(")");
    reveal_strlit(" -> `");
    reveal_strlit("`");
    reveal_strlit(" (aliases: ");
    reveal_strlit(", ");
    reveal_strlit("*");
    reveal_strlit(": ");
}

proof fn lemma_md_args_no_nl(a: Seq<String>, n: int)
    requires
        0 <= n <= a.len(),
        forall|k: int| 0 <= k < a.len() ==> no_nl((#[trigger] a[k])@),
    ensures
        no_nl(md_args(a, n)),
    decreases n,
{
    lemma_literal_no_nl();
    if n > 0 {
        lemma_md_args_no_nl(a, n - 1);
        lemma_escape_md_arg_no_nl(a[n - 1]@);
        lemma_no_nl_cat("*"@, escape_md_arg_spec(a[n - 1]@));
        lemma_no_nl_cat("*"@ + escape_md_arg_spec(a[n - 1]@), "*"@);
        if n == 1 {
            lemma_escape_md_arg_no_nl(a[0]@);
        } else {
            lemma_no_nl_cat(md_args(a, n - 1), ", "@);
            lemma_no_nl_cat(md_args(a, n - 1) + ", "@, "*"@);
            lemma_no_nl_cat(md_args(a, n - 1) + ", "@ + "*"@, escape_md_arg_spec(a[n - 1]@));
            lemma_no_nl_cat(
                md_args(a, n - 1) + ", "@ + "*"@ + escape_md_arg_spec(a[n - 1]@),
                "*"@,
            );
        }
    }
}

proof fn lemma_bold_names_no_nl(ns: Seq<String>, n: int)
    requires
        0 <= n <= ns.len(),
        forall|k: int| 0 <= k < ns.len() ==> no_nl((#[trigger] ns[k])@),
    ensures
        no_nl(bold_names(ns, n)),
    decreases n,
{
    lemma_literal_no_nl();
    if n > 0 {
        lemma_bold_names_no_nl(ns, n - 1);
        if n == 1 {
            lemma_no_nl_cat("**"@, ns[0]@);
            lemma_no_nl_cat("**"@ + ns[0]@, "**"@);
        } else {
            lemma_no_nl_cat(bold_names(ns, n - 1), ", "@);
            lemma_no_nl_cat(bold_names(ns, n - 1) + ", "@, "**"@);
            lemma_no_nl_cat(bold_names(ns, n - 1) + ", "@ + "**"@, ns[n - 1]@);
            lemma_no_nl_cat(bold_names(ns, n - 1) + ", "@ + "**"@ + ns[n - 1]@, "**"@);
        }
    }
}

proof fn lemma_form_md_no_nl(
    nm: Seq<char>,
    args: Option<Seq<String>>,
    ret: Seq<char>,
    help: Seq<char>,
    aliases: Option<Seq<String>>,
)
    requires
        no_nl(nm),
        no_nl(ret),
        args is Some ==> forall|k: int|
            0 <= k < args->0.len() ==> no_nl((#[trigger] args->0[k])@),
        aliases is Some ==> forall|k: int|
            0 <= k < aliases->0.len() ==> no_nl((#[trigger] aliases->0[k])@),
    ensures
        no_nl(form_md(nm, args, ret, help, aliases)),
{
    lemma_literal_no_nl();
    let name_part = "- **"@ + nm + "**"@;
    lemma_no_nl_cat("- **"@, nm);
    lemma_no_nl_cat("- **"@ + nm, "**"@);
    let args_part = match args {
        Some(a) => "("@ + md_args(a, a.len() as int) + ")"@,
        None => Seq::<char>::empty(),
    };
    match args {
        Some(a) => {
            lemma_md_args_no_nl(a, a.len() as int);
            lemma_no_nl_cat("("@, md_args(a, a.len() as int));
            lemma_no_nl_cat("("@ + md_args(a, a.len() as int), ")"@);
        },
        None => {},
    }
    let ret_part = " -> `"@ + ret + "`"@;
    lemma_no_nl_cat(" -> `"@, ret);
    lemma_no_nl_cat(" -> `"@ + ret, "`"@);
    let alias_part = match aliases {
        Some(ns) => " (aliases: "@ + bold_names(ns, ns.len() as int) + ")"@,
        None => Seq::<char>::empty(),
    };
    match aliases {
        Some(ns) => {
            lemma_bold_names_no_nl(ns, ns.len() as int);
            lemma_no_nl_cat(" (aliases: "@, bold_names(ns, ns.len() as int));
            lemma_no_nl_cat(" (aliases: "@ + bold_names(ns, ns.len() as int), ")"@);
        },
        None => {},
    }
    lemma_escape_linebreaks_no_nl(help);
    lemma_no_nl_cat(name_part, args_part);
    lemma_no_nl_cat(name_part + args_part, ret_part);
    lemma_no_nl_cat(name_part + args_part + ret_part, alias_part);
    lemma_no_nl_cat(name_part + args_part + ret_part + alias_part, ": "@);
    lemma_no_nl_cat(name_part + args_part + ret_part + alias_part + ": "@, escape_linebreaks_spec(help));
    assert(form_md(nm, args, ret, help, aliases) =~= name_part + args_part + ret_part
        + alias_part + ": "@ + escape_linebreaks_spec(help));
}

proof fn lemma_nl_literal_count()
    ensures
        count_nl("\n"@) == 1,
{
    reveal_strlit("\n");
    assert("\n"@.len() == 1);
    assert("\n"@[0] == '\n');
    assert("\n"@.skip(1) =~= Seq::<char>::empty());
    assert(count_nl("\n"@.skip(1)) == 0);
    assert(count_nl("\n"@) == 1 + count_nl("\n"@.skip(1)));
}

/// Every field of the entry stays on one line: no newline in the name,
/// the return description, any argument, any alias, or any alternative's
/// arguments. The help prose may hold newlines: rendering escapes them.
pub open spec fn entry_fields_single_line(f: FunctionHelp) -> bool {
    &&& no_nl(f.name@)
    &&& no_nl(f.returns@)
    &&& (match f.arguments {
        Some(a) => forall|k: int| 0 <= k < a@.len() ==> no_nl((#[trigger] a@[k])@),
        None => true,
    })
    &&& (match f.aliases {
        Some(ns) => forall|k: int| 0 <= k < ns@.len() ==> no_nl((#[trigger] ns@[k])@),
        None => true,
    })
    &&& (forall|k: int, m: int|
        0 <= k < opt_alts(f.alternatives).len() && 0 <= m < (#[trigger] opt_alts(
            f.alternatives,
        )[k])@.len() ==> no_nl((#[trigger] opt_alts(f.alternatives)[k]@[m])@))
}

proof fn lemma_alt_forms_md_count(alts: Seq<Vec<String>>, f: FunctionHelp, n: int)
    requires
        entry_fields_single_line(f),
        alts == opt_alts(f.alternatives),
        0 <= n <= alts.len(),
    ensures
        count_nl(alt_forms_md(alts, f, n)) == n,
    decreases n,
{
    if n > 0 {
        lemma_alt_forms_md_count(alts, f, n - 1);
        let form = form_md(
            f.name@,
            Some(alts[n - 1]@),
            f.returns@,
            f.help@,
            opt_aliases_view(f.aliases),
        );
        assert(forall|m: int| 0 <= m < alts[n - 1]@.len() ==> no_nl((#[trigger] alts[n - 1]@[m])@));
        lemma_form_md_no_nl(
            f.name@,
            Some(alts[n - 1]@),
            f.returns@,
            f.help@,
            opt_aliases_view(f.aliases),
        );
        lemma_count_nl_zero(form);
        lemma_nl_literal_count();
        lemma_count_nl_cat(alt_forms_md(alts, f, n - 1), "\n"@);
        lemma_count_nl_cat(alt_forms_md(alts, f, n - 1) + "\n"@, form);
    }
}

/// A Markdown entry whose fields are single-line renders as exactly one
/// call-signature line for the primary call, with every alias inline on
/// that same line, plus exactly one further call-signature line per
/// alternative argument list: its newline count is one more than the
/// number of alternatives, however many aliases it has. A name, return
/// type, argument or alias holding a newline falls outside the law: such
/// a field would itself split its call line. The help prose is free:
/// rendering collapses its newlines to inline break markers.
pub proof fn lemma_md_entry_line_count(f: FunctionHelp)
    requires
        entry_fields_single_line(f),
    ensures
        count_nl(fnhelp_md(f)) == 1 + opt_alts(f.alternatives).len(),
{
    let main = form_md(
        f.name@,
        opt_vec_view(f.arguments),
        f.returns@,
        f.help@,
        opt_aliases_view(f.aliases),
    );
    lemma_form_md_no_nl(
        f.name@,
        opt_vec_view(f.arguments),
        f.returns@,
        f.help@,
        opt_aliases_view(f.aliases),
    );
    lemma_count_nl_zero(main);
    let alts = opt_alts(f.alternatives);
    lemma_alt_forms_md_count(alts, f, alts.len() as int);
    lemma_nl_literal_count();
    lemma_count_nl_cat(main, alt_forms_md(alts, f, alts.len() as int));
    lemma_count_nl_cat(main + alt_forms_md(alts, f, alts.len() as int), "\n"@);
}

} // verus!
