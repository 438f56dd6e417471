use xan_help::cheatsheet::{get_colorized_cheatsheet, recombobulate_cheatsheet, replace_links};
use xan_help::ansi::strip_ansi_colors;
use xan_help::colorize::colorize_functions_help;
use xan_help::facade::{run, HelpData};
use xan_help::model::{
    Aggs, Args, FunctionHelp, FunctionHelpSection, FunctionHelpSections, HelpError,
    OperatorExample, OperatorHelpSection, OperatorHelpSections, ScrapingHelp,
};
use xan_help::render_fns::{
    escape_markdown_argument, escape_markdown_linebreaks, join_arguments,
};
use xan_help::slug::slug;
use xan_help::wrap::{indent, wrap};

const RED: &str = "\u{1b}[31m";
const GREEN: &str = "\u{1b}[32m";
const YELLOW: &str = "\u{1b}[33m";
const BLUE: &str = "\u{1b}[34m";
const MAGENTA: &str = "\u{1b}[35m";
const CYAN: &str = "\u{1b}[36m";
const DIM: &str = "\u{1b}[2m";
const RESET: &str = "\u{1b}[0m";

fn entry(name: &str, args: Option<Vec<&str>>, returns: &str, help: &str) -> FunctionHelp {
    FunctionHelp {
        name: name.to_string(),
        arguments: args.map(|v| v.iter().map(|a| a.to_string()).collect()),
        returns: returns.to_string(),
        help: help.to_string(),
        aliases: None,
        alternatives: None,
    }
}

fn sample_data() -> HelpData {
    HelpData {
        cheatsheet: "pay 42 now".to_string(),
        functions_prelude: "prelude".to_string(),
        functions_json: "[{\"title\":\"Strings\"}]".to_string(),
        functions: FunctionHelpSections(vec![
            FunctionHelpSection {
                title: "Strings".to_string(),
                functions: vec![entry("len", Some(vec!["<string>"]), "int", "length")],
            },
            FunctionHelpSection {
                title: "Math".to_string(),
                functions: vec![entry("abs", Some(vec!["<number>"]), "number", "absolute")],
            },
        ]),
        operators: OperatorHelpSections(vec![OperatorHelpSection {
            title: "Comparison".to_string(),
            prelude: None,
            examples: vec![OperatorExample {
                snippet: "x == y".to_string(),
                help: Some("equality".to_string()),
            }],
        }]),
        aggs_prelude: "aggs prelude".to_string(),
        aggs_json: "[]".to_string(),
        aggs: Aggs(vec![entry("sum", Some(vec!["<expr>"]), "number", "sums")]),
        scraping_cheatsheet: "scrape things".to_string(),
        scraping_json: "{}".to_string(),
        scraping: ScrapingHelp {
            selectors: vec![entry("first", Some(vec!["css"]), "selection", "first match")],
            extractors: vec![entry("text", None, "string", "inner text")],
        },
    }
}

fn args_for(cmd: &str) -> Args {
    Args {
        cmd_cheatsheet: cmd == "cheatsheet",
        cmd_functions: cmd == "functions",
        cmd_aggs: cmd == "aggs",
        cmd_scraping: cmd == "scraping",
        flag_open: false,
        flag_pager: false,
        flag_section: None,
        flag_json: false,
        flag_md: false,
    }
}

#[test]
fn slug_basic() {
    assert_eq!(slug("Foo Bar!"), "foo-bar");
}

#[test]
fn slug_case_insensitive() {
    assert_eq!(slug("Foo"), slug("foo"));
    assert_eq!(slug("COMPARISON Ops"), slug("comparison ops"));
}

#[test]
fn slug_idempotent_without_spaces() {
    let once = slug("Tricky!");
    assert_eq!(slug(&once), once);
}

#[test]
fn slug_hyphens_are_dropped_on_a_second_pass() {
    assert_eq!(slug("foo bar"), "foo-bar");
    assert_eq!(slug("foo-bar"), "foobar");
}

#[test]
fn escape_argument() {
    assert_eq!(escape_markdown_argument("<string>"), "\\<string\\>");
    assert_eq!(escape_markdown_argument("a*b"), "a\\*b");
}

#[test]
fn escape_linebreaks() {
    assert_eq!(escape_markdown_linebreaks("a\n\nb\nc"), "a<br>b<br>c");
}

#[test]
fn strip_ansi_removes_escapes() {
    assert_eq!(strip_ansi_colors("\u{1b}[31mred\u{1b}[0m plain"), "red plain");
}

#[test]
fn colorize_quotes() {
    assert_eq!(
        colorize_functions_help("say \"hi\" now"),
        format!("say {GREEN}\"hi\"{RESET} now")
    );
}

#[test]
fn colorize_headers() {
    assert_eq!(colorize_functions_help("## Foo"), format!("{YELLOW}## Foo{RESET}"));
}

#[test]
fn colorize_urls() {
    assert_eq!(
        colorize_functions_help("see https://a.b ok"),
        format!("see {BLUE}https://a.b{RESET} ok")
    );
}

#[test]
fn colorize_unary_operator() {
    assert_eq!(colorize_functions_help("-x"), format!("{CYAN}-{RESET}{RED}x{RESET}"));
}

#[test]
fn colorize_binary_operator() {
    assert_eq!(
        colorize_functions_help("x + y"),
        format!("{RED}x{RESET} {CYAN}+{RESET} {RED}y{RESET}")
    );
    assert_eq!(
        colorize_functions_help("x not in y"),
        format!("{RED}x{RESET} {CYAN}not in{RESET} {RED}y{RESET}")
    );
}

#[test]
fn colorize_pipeline_operator() {
    assert_eq!(
        colorize_functions_help("trim(name) | len"),
        format!("trim(name) {CYAN}|{RESET} len")
    );
}

#[test]
fn colorize_slice() {
    assert_eq!(
        colorize_functions_help("x[a:b]"),
        format!("{RED}x{RESET}[{CYAN}a{RESET}:{CYAN}b{RESET}]")
    );
}

#[test]
fn colorize_flags() {
    assert_eq!(colorize_functions_help("use --all-caps"), format!("use {CYAN}--all-caps{RESET}"));
}

#[test]
fn colorizer_is_noop_without_triggers() {
    let text = "plain words, nothing to see here.\nmore of the same";
    assert_eq!(colorize_functions_help(text), text);
    assert_eq!(get_colorized_cheatsheet(text), text);
}

#[test]
fn cheatsheet_numbers_are_highlighted() {
    assert_eq!(
        get_colorized_cheatsheet("pay 42 now"),
        format!("pay {RED}42{RESET} now")
    );
}

#[test]
fn cheatsheet_link_replacement() {
    let body = "see [`xan help functions`](./functions.md) ok";
    assert_eq!(
        recombobulate_cheatsheet(body),
        format!("see {GREEN}`xan help functions`{RESET} ok")
    );
    assert_eq!(replace_links(body), "see `xan help functions` ok");
}

#[test]
fn cheatsheet_list_links_are_stripped() {
    assert_eq!(get_colorized_cheatsheet("- [Intro](#intro)"), "- Intro");
}

#[test]
fn operator_example_rows_align() {
    let section = OperatorHelpSection {
        title: "T".to_string(),
        prelude: None,
        examples: vec![
            OperatorExample {
                snippet: "x + y".to_string(),
                help: Some("adds x and y".to_string()),
            },
            OperatorExample { snippet: "x".to_string(), help: None },
        ],
    };
    assert_eq!(
        section.to_txt(),
        "### T\n\n    x + y - adds x and y\n    x\n\n\n"
    );
}

#[test]
fn operator_example_row_padding() {
    let e = OperatorExample { snippet: "x".to_string(), help: Some("h".to_string()) };
    assert_eq!(e.to_txt(5), "x     - h");
    let bare = OperatorExample { snippet: "x".to_string(), help: None };
    assert_eq!(bare.to_txt(5), "x");
}

#[test]
fn operator_summaries() {
    let ops = OperatorHelpSections(vec![OperatorHelpSection {
        title: "Comparison Ops".to_string(),
        prelude: None,
        examples: vec![OperatorExample { snippet: "x".to_string(), help: None }],
    }]);
    assert_eq!(ops.txt_summary(), "- Operators\n    - Comparison Ops\n");
    assert_eq!(
        ops.md_summary(),
        "- [Operators](#operators)\n    - [Comparison Ops](#comparison-ops)\n"
    );
}

#[test]
fn placeholder_arguments_render_distinctly() {
    let args = vec!["<string>".to_string(), "col".to_string()];
    assert_eq!(
        join_arguments(&args),
        format!("{DIM}<string>{RESET}, {RED}col{RESET}")
    );
}

#[test]
fn entry_txt_call_form() {
    let f = entry("len", Some(vec!["<string>"]), "int", "length");
    let txt = f.to_txt();
    assert!(txt.starts_with(&format!(
        "- {CYAN}len{RESET}({DIM}<string>{RESET}) -> {MAGENTA}int{RESET}\n"
    )));
}

#[test]
fn entry_md_aliases_stay_on_one_line() {
    let mut f = entry("len", Some(vec!["<string>"]), "int", "length");
    f.aliases = Some(vec!["a".to_string(), "b".to_string()]);
    let md = f.to_md();
    assert_eq!(
        md,
        "- **len**(*\\<string\\>*) -> `int` (aliases: **a**, **b**): length\n"
    );
    assert_eq!(md.matches('\n').count(), 1);
}

#[test]
fn entry_md_one_line_per_alternative() {
    let mut f = entry("len", Some(vec!["<string>"]), "int", "length");
    f.alternatives = Some(vec![vec!["x".to_string()], vec!["y".to_string()]]);
    let md = f.to_md();
    assert_eq!(
        md,
        "- **len**(*\\<string\\>*) -> `int`: length\n- **len**(*x*) -> `int`: length\n- **len**(*y*) -> `int`: length\n"
    );
    assert_eq!(md.matches('\n').count(), 3);
}

#[test]
fn filtering_retains_matching_sections_only() {
    let data = sample_data();
    let out = data
        .functions
        .to_txt(&data.operators, &Some("str".to_string()), "prelude")
        .unwrap();
    assert!(out.contains("Strings"));
    assert!(!out.contains("Math"));
}

#[test]
fn filtering_query_controls_operator_block() {
    let data = sample_data();
    let kept = data
        .functions
        .to_txt(&data.operators, &Some("OPERATOR".to_string()), "prelude")
        .unwrap();
    assert!(kept.contains("Operators"));
    let suppressed = data
        .functions
        .to_txt(&data.operators, &Some("str".to_string()), "prelude")
        .unwrap();
    assert!(!suppressed.contains("Operators"));
}

#[test]
fn no_query_keeps_everything() {
    let data = sample_data();
    let out = data.functions.to_txt(&data.operators, &None, "prelude").unwrap();
    assert!(out.contains("Operators"));
    assert!(out.contains("Strings"));
    assert!(out.contains("Math"));
}

#[test]
fn empty_example_set_fails_rendering() {
    let ops = OperatorHelpSections(vec![OperatorHelpSection {
        title: "Empty".to_string(),
        prelude: None,
        examples: vec![],
    }]);
    assert_eq!(ops.to_txt().unwrap_err(), HelpError::EmptyExampleSet);
    assert_eq!(ops.to_md().unwrap_err(), HelpError::EmptyExampleSet);
    let data = sample_data();
    let r = data.functions.to_txt(&ops, &None, "p");
    assert_eq!(r.unwrap_err(), HelpError::EmptyExampleSet);
    let ok = data.functions.to_txt(&ops, &Some("str".to_string()), "p");
    assert!(ok.is_ok());
}

#[test]
fn run_rejects_filter_on_wrong_kind() {
    let data = sample_data();
    let mut a = args_for("aggs");
    a.flag_section = Some("str".to_string());
    assert_eq!(run(&a, &data).unwrap_err(), HelpError::InvalidFilterTarget);
}

#[test]
fn run_rejects_json_cheatsheet() {
    let data = sample_data();
    let mut a = args_for("cheatsheet");
    a.flag_json = true;
    assert_eq!(run(&a, &data).unwrap_err(), HelpError::UnsupportedFormat);
}

#[test]
fn run_raw_dump_is_byte_identical() {
    let data = sample_data();
    for cmd in ["functions", "aggs", "scraping"] {
        let mut a = args_for(cmd);
        a.flag_json = true;
        let out = run(&a, &data).unwrap();
        let blob = match cmd {
            "functions" => &data.functions_json,
            "aggs" => &data.aggs_json,
            _ => &data.scraping_json,
        };
        assert_eq!(out.as_bytes(), blob.as_bytes());
    }
}

#[test]
fn run_renders_each_kind() {
    let data = sample_data();
    assert_eq!(
        run(&args_for("cheatsheet"), &data).unwrap(),
        format!("pay {RED}42{RESET} now")
    );
    let f = run(&args_for("functions"), &data).unwrap();
    assert!(f.contains("len"));
    let ag = run(&args_for("aggs"), &data).unwrap();
    assert!(ag.contains("sum"));
    let sc = run(&args_for("scraping"), &data).unwrap();
    assert!(sc.contains("Selector functions"));
    assert!(sc.contains("Extractor functions"));
}

#[test]
fn scraping_md_replaces_cheatsheet_links() {
    let data = HelpData {
        scraping_cheatsheet: "read [`xan help aggs`](./aggs.md) too".to_string(),
        ..sample_data()
    };
    let mut a = args_for("scraping");
    a.flag_md = true;
    let out = run(&a, &data).unwrap();
    assert!(out.starts_with("read `xan help aggs` too"));
    assert!(!out.contains("(./aggs.md)"));
}

#[test]
fn markdown_cheatsheet_replaces_links() {
    let data = HelpData {
        cheatsheet: "see [`xan help cheatsheet`](./cheatsheet.md)".to_string(),
        ..sample_data()
    };
    let mut a = args_for("cheatsheet");
    a.flag_md = true;
    assert_eq!(run(&a, &data).unwrap(), "see `xan help cheatsheet`");
}

#[test]
fn functions_md_lists_anchors() {
    let data = sample_data();
    let mut a = args_for("functions");
    a.flag_md = true;
    let out = run(&a, &data).unwrap();
    assert!(out.contains("- [Strings](#strings)"));
    assert!(out.contains("- [Operators](#operators)"));
    assert!(out.contains("### Comparison"));
}

#[test]
fn wrap_keeps_short_lines() {
    assert_eq!(wrap("hello world"), "hello world");
}

#[test]
fn indent_prefixes_lines() {
    assert_eq!(indent("a\nb"), "    a\n    b");
    assert_eq!(indent("a\n\nb"), "    a\n\n    b");
    assert_eq!(indent("a\n"), "    a\n");
}

#[test]
fn args_cmd_names_the_kind() {
    assert_eq!(args_for("cheatsheet").cmd(), "cheatsheet");
    assert_eq!(args_for("functions").cmd(), "functions");
    assert_eq!(args_for("aggs").cmd(), "aggs");
    assert_eq!(args_for("scraping").cmd(), "scraping");
}

#[test]
fn error_messages_are_actionable() {
    assert!(HelpError::InvalidFilterTarget.message().contains("functions"));
    assert!(HelpError::EmptyExampleSet.message().contains("examples"));
}

#[test]
fn cheatsheet_code_fence_is_rewritten_and_indented() {
    assert_eq!(
        get_colorized_cheatsheet("```python\nfoo(1)\n```\n"),
        format!("\n    {BLUE}foo{RESET}({RED}1{RESET})\n\n")
    );
}

#[test]
fn cheatsheet_fence_keywords_and_operators() {
    assert_eq!(
        get_colorized_cheatsheet("```scss\ntrue\n```"),
        format!("\n    {YELLOW}true{RESET}\n")
    );
    assert_eq!(
        get_colorized_cheatsheet("```javascript\na => b\n```"),
        format!("\n    a {CYAN}=>{RESET} b\n")
    );
}

#[test]
fn cheatsheet_comment_lines_are_dimmed() {
    assert_eq!(
        get_colorized_cheatsheet("    # note\n"),
        format!("{DIM}    # note{RESET}\n")
    );
}

#[test]
fn doc_url_names_the_kind() {
    assert_eq!(
        args_for("aggs").doc_url(),
        "https://github.com/medialab/xan/blob/master/docs/moonblade/aggs.md"
    );
}

#[test]
fn json_cheatsheet_error_message_names_the_flag() {
    assert_eq!(
        HelpError::UnsupportedFormat.message(),
        "cheatsheet does not support --json!"
    );
}

#[test]
fn stripping_inverts_coloring() {
    let args = vec!["<string>".to_string(), "col".to_string()];
    assert_eq!(strip_ansi_colors(&join_arguments(&args)), "<string>, col");
    assert_eq!(
        strip_ansi_colors(&colorize_functions_help("x + y or --flag")),
        "x + y or --flag"
    );
}
