use vstd::prelude::*;

verus! {

// The typed documentation model: operators, functions, aggregates and
// scraping helpers, all immutable once built, plus the error taxonomy and
// the parsed command-line shape that the rendering facade consumes.

/// One operator example: a snippet, optionally with a help column.
pub struct OperatorExample {
    pub snippet: String,
    pub help: Option<String>,
}

/// A titled group of operator examples, with an optional prose prelude.
pub struct OperatorHelpSection {
    pub title: String,
    pub prelude: Option<String>,
    pub examples: Vec<OperatorExample>,
}

/// The operator reference: its sections in rendering order.
pub struct OperatorHelpSections(pub Vec<OperatorHelpSection>);

/// One documented callable: name, optional argument list, return type
/// description, help prose, optional alternate names and optional
/// alternate argument lists.
pub struct FunctionHelp {
    pub name: String,
    pub arguments: Option<Vec<String>>,
    pub returns: String,
    pub help: String,
    pub aliases: Option<Vec<String>>,
    pub alternatives: Option<Vec<Vec<String>>>,
}

/// A titled group of function entries.
pub struct FunctionHelpSection {
    pub title: String,
    pub functions: Vec<FunctionHelp>,
}

/// The function reference: its sections in rendering order.
pub struct FunctionHelpSections(pub Vec<FunctionHelpSection>);

/// The aggregation reference: a flat list of entries.
pub struct Aggs(pub Vec<FunctionHelp>);

/// The scraping reference: selector and extractor entries.
pub struct ScrapingHelp {
    pub selectors: Vec<FunctionHelp>,
    pub extractors: Vec<FunctionHelp>,
}

/// Everything that can go wrong while rendering.
#[derive(Clone, Copy, PartialEq, Eq, Structural, Debug)]
pub enum HelpError {
    /// Structured input did not match the schema of its kind.
    MalformedInput,
    /// An operator section has no examples, so no column width exists.
    EmptyExampleSet,
    /// A filter query was supplied for a kind other than functions.
    InvalidFilterTarget,
    /// The raw dump was requested for the cheatsheet, which has no
    /// structured blob to dump.
    UnsupportedFormat,
}

impl HelpError {
    /// A human-readable account of the failure.
    pub fn message(&self) -> (r: &'static str)
        ensures
            r@ == message_spec(*self),
    {
        match self {
            HelpError::MalformedInput => "malformed structured documentation input",
            HelpError::EmptyExampleSet => "an operator section has no examples",
            HelpError::InvalidFilterTarget => "-S/--section <query> only works with the `functions` subcommand!",
            HelpError::UnsupportedFormat => "cheatsheet does not support --json!",
        }
    }
}

pub open spec fn message_spec(e: HelpError) -> Seq<char> {
    match e {
        HelpError::MalformedInput => "malformed structured documentation input"@,
        HelpError::EmptyExampleSet => "an operator section has no examples"@,
        HelpError::InvalidFilterTarget => "-S/--section <query> only works with the `functions` subcommand!"@,
        HelpError::UnsupportedFormat => "cheatsheet does not support --json!"@,
    }
}

/// The parsed command line of the help command, as the facade sees it.
pub struct Args {
    pub cmd_cheatsheet: bool,
    pub cmd_functions: bool,
    pub cmd_aggs: bool,
    pub cmd_scraping: bool,
    pub flag_open: bool,
    pub flag_pager: bool,
    pub flag_section: Option<String>,
    pub flag_json: bool,
    pub flag_md: bool,
}

pub open spec fn cmd_spec(a: Args) -> Seq<char> {
    if a.cmd_cheatsheet {
        "cheatsheet"@
    } else if a.cmd_functions {
        "functions"@
    } else if a.cmd_aggs {
        "aggs"@
    } else {
        "scraping"@
    }
}

impl Args {
    /// The name of the selected documentation kind.
    pub fn cmd(&self) -> (r: &'static str)
        requires
            self.cmd_cheatsheet || self.cmd_functions || self.cmd_aggs || self.cmd_scraping,
        ensures
            r@ == cmd_spec(*self),
    {
        if self.cmd_cheatsheet {
            "cheatsheet"
        } else if self.cmd_functions {
            "functions"
        } else if self.cmd_aggs {
            "aggs"
        } else {
            "scraping"
        }
    }

    /// The address of the online copy of the selected documentation.
    pub fn doc_url(&self) -> (r: String)
        requires
            self.cmd_cheatsheet || self.cmd_functions || self.cmd_aggs || self.cmd_scraping,
        ensures
            r@ == doc_url_spec(*self),
    {
        let mut out: Vec<char> = Vec::new();
        crate::chars::append_str(&mut out, "https://github.com/medialab/xan/blob/master/docs/moonblade/");
        crate::chars::append_str(&mut out, self.cmd());
        crate::chars::append_str(&mut out, ".md");
        crate::chars::string_of(&out)
    }
}

pub open spec fn doc_url_spec(a: Args) -> Seq<char> {
    "https://github.com/medialab/xan/blob/master/docs/moonblade/"@ + cmd_spec(a) + ".md"@
}

} // verus!
