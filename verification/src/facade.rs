use vstd::prelude::*;
use crate::cheatsheet::{recombobulate_cheatsheet, recombobulate_spec, replace_links,
    replace_links_spec};
use crate::model::{Aggs, Args, FunctionHelpSections, HelpError, OperatorHelpSections,
    ScrapingHelp};
use crate::render_fns::{
    aggs_md, aggs_txt, fsections_md, fsections_txt, keep_operators, opt_str_view, scraping_md,
    scraping_txt,
};
use crate::render_ops::all_sections_nonempty;

verus! {

// The rendering facade: given the parsed command line and the
// documentation data, pick the document and the output form and produce
// the whole output string, or a typed error, before anything is printed.

/// The documentation inputs of one invocation: the free-form cheatsheet
/// bodies, the prose preludes, the raw structured blobs (for the raw
/// dump), and the parsed documents.
pub struct HelpData {
    pub cheatsheet: String,
    pub functions_prelude: String,
    pub functions_json: String,
    pub functions: FunctionHelpSections,
    pub operators: OperatorHelpSections,
    pub aggs_prelude: String,
    pub aggs_json: String,
    pub aggs: Aggs,
    pub scraping_cheatsheet: String,
    pub scraping_json: String,
    pub scraping: ScrapingHelp,
}

pub open spec fn res_view(r: Result<String, HelpError>) -> Result<Seq<char>, HelpError> {
    match r {
        Ok(s) => Ok(s@),
        Err(e) => Err(e),
    }
}

/// What one invocation produces: the rendered or raw output for the
/// selected kind and form, or the error that rejects the invocation
/// before any output exists.
pub open spec fn run_spec(a: Args, d: HelpData) -> Result<Seq<char>, HelpError> {
    if a.flag_section is Some && !a.cmd_functions {
        Err(HelpError::InvalidFilterTarget)
    } else if a.cmd_cheatsheet {
        if a.flag_json {
            Err(HelpError::UnsupportedFormat)
        } else if a.flag_md {
            Ok(replace_links_spec(d.cheatsheet@))
        } else {
            Ok(recombobulate_spec(d.cheatsheet@))
        }
    } else if a.cmd_functions {
        if a.flag_json {
            Ok(d.functions_json@)
        } else if a.flag_md {
            if all_sections_nonempty(d.operators.0@) {
                Ok(fsections_md(d.functions, d.operators, d.functions_prelude@))
            } else {
                Err(HelpError::EmptyExampleSet)
            }
        } else {
            if keep_operators(opt_str_view(a.flag_section)) && !all_sections_nonempty(
                d.operators.0@,
            ) {
                Err(HelpError::EmptyExampleSet)
            } else {
                Ok(
                    fsections_txt(
                        d.functions,
                        d.operators,
                        opt_str_view(a.flag_section),
                        d.functions_prelude@,
                    ),
                )
            }
        }
    } else if a.cmd_aggs {
        if a.flag_json {
            Ok(d.aggs_json@)
        } else if a.flag_md {
            Ok(aggs_md(d.aggs, d.aggs_prelude@))
        } else {
            Ok(aggs_txt(d.aggs, d.aggs_prelude@))
        }
    } else {
        if a.flag_json {
            Ok(d.scraping_json@)
        } else if a.flag_md {
            Ok(scraping_md(d.scraping, d.scraping_cheatsheet@))
        } else {
            Ok(scraping_txt(d.scraping, d.scraping_cheatsheet@))
        }
    }
}

/// Render the selected documentation. Either the whole output string is
/// produced, or a typed error and nothing else: there is no partial
/// output. A filter query is only accepted for the function reference.
pub fn run(args: &Args, data: &HelpData) -> (r: Result<String, HelpError>)
    requires
        args.cmd_cheatsheet || args.cmd_functions || args.cmd_aggs || args.cmd_scraping,
    ensures
        res_view(r) == run_spec(*args, *data),
{
    if args.flag_section.is_some() && !args.cmd_functions {
        return Err(HelpError::InvalidFilterTarget);
    }
    if args.cmd_cheatsheet {
        if args.flag_json {
            Err(HelpError::UnsupportedFormat)
        } else if args.flag_md {
            Ok(replace_links(data.cheatsheet.as_str()))
        } else {
            Ok(recombobulate_cheatsheet(data.cheatsheet.as_str()))
        }
    } else if args.cmd_functions {
        if args.flag_json {
            Ok(data.functions_json.clone())
        } else if args.flag_md {
            data.functions.to_md(&data.operators, data.functions_prelude.as_str())
        } else {
            data.functions.to_txt(
                &data.operators,
                &args.flag_section,
                data.functions_prelude.as_str(),
            )
        }
    } else if args.cmd_aggs {
        if args.flag_json {
            Ok(data.aggs_json.clone())
        } else if args.flag_md {
            Ok(data.aggs.to_md(data.aggs_prelude.as_str()))
        } else {
            Ok(data.aggs.to_txt(data.aggs_prelude.as_str()))
        }
    } else {
        if args.flag_json {
            Ok(data.scraping_json.clone())
        } else if args.flag_md {
            Ok(data.scraping.to_md(data.scraping_cheatsheet.as_str()))
        } else {
            Ok(data.scraping.to_txt(data.scraping_cheatsheet.as_str()))
        }
    }
}

/// The raw dump is a byte-identical passthrough: with the raw form
/// selected, each structured kind hands back exactly its input blob,
/// unparsed and unrendered. A filter query is accepted alongside it only
/// for the function reference; for the other kinds it is rejected first.
pub proof fn lemma_raw_passthrough(a: Args, d: HelpData)
    requires
        a.flag_json,
        !a.cmd_cheatsheet,
    ensures
        a.cmd_functions ==> run_spec(a, d) == Ok::<Seq<char>, HelpError>(d.functions_json@),
        !a.cmd_functions && a.cmd_aggs && a.flag_section is None ==> run_spec(a, d) == Ok::<
            Seq<char>,
            HelpError,
        >(d.aggs_json@),
        !a.cmd_functions && !a.cmd_aggs && a.flag_section is None ==> run_spec(a, d) == Ok::<
            Seq<char>,
            HelpError,
        >(d.scraping_json@),
        !a.cmd_functions && a.flag_section is Some ==> run_spec(a, d) == Err::<
            Seq<char>,
            HelpError,
        >(HelpError::InvalidFilterTarget),
{
}

} // verus!
