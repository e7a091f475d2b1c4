use chartlet::cli::{parse_arguments, strict_failure, usage, warning_line, Command, USAGE};
use chartlet::{ChartWarning, RenderFormat, TableMode};

fn arguments(list: &[&str]) -> Vec<String> {
    list.iter().map(|argument| (*argument).to_owned()).collect()
}

#[test]
fn usage_names_every_option() {
    assert_eq!(usage(), USAGE);
    assert!(usage().starts_with("usage: chartlet"));
}

#[test]
fn help_is_recognised_first_or_among_the_options() {
    for list in [
        &["--help"][..],
        &["-h"][..],
        &["render", "spec.json", "--format", "html", "-h"][..],
    ] {
        assert!(matches!(parse_arguments(&arguments(list)), Ok(Command::Help)));
    }
}

#[test]
fn a_render_request_collects_every_option() {
    let parsed = parse_arguments(&arguments(&[
        "render",
        "spec.json",
        "--format",
        "html",
        "-o",
        "chart.html",
        "--id-prefix",
        "revenue",
        "--table",
        "visible",
        "--strict",
    ]));
    let Ok(Command::Render(request)) = parsed else {
        panic!("a complete command line is accepted");
    };
    assert_eq!(request.input, "spec.json");
    assert_eq!(request.format, RenderFormat::Html);
    assert_eq!(request.output.as_deref(), Some("chart.html"));
    assert_eq!(request.id_prefix.as_deref(), Some("revenue"));
    assert_eq!(request.table_mode, TableMode::Visible);
    assert!(request.strict);
}

#[test]
fn defaults_render_svg_to_standard_output() {
    let Ok(Command::Render(request)) = parse_arguments(&arguments(&["render", "-"])) else {
        panic!("reading from standard input is accepted");
    };
    assert_eq!(request.input, "-");
    assert_eq!(request.format, RenderFormat::Svg);
    assert_eq!(request.output, None);
    assert_eq!(request.id_prefix, None);
    assert_eq!(request.table_mode, TableMode::Details);
    assert!(!request.strict);
}

fn error(list: &[&str]) -> String {
    parse_arguments(&arguments(list)).unwrap_err()
}

#[test]
fn mistakes_are_named() {
    assert_eq!(error(&[]), USAGE);
    assert_eq!(error(&["draw"]), USAGE);
    assert_eq!(error(&["render"]), USAGE);
    assert_eq!(error(&["render", "a.json", "--format"]), "--format must be svg or html");
    assert_eq!(error(&["render", "a.json", "--format", "png"]), "--format must be svg or html");
    assert_eq!(error(&["render", "a.json", "--output"]), "--output requires a path");
    assert_eq!(error(&["render", "a.json", "--id-prefix"]), "--id-prefix requires a value");
    assert_eq!(error(&["render", "a.json", "--table", "open"]), "--table must be details or visible");
    assert_eq!(
        error(&["render", "a.json", "--bogus"]),
        format!("unknown argument \"--bogus\"\n\n{USAGE}")
    );
}

#[test]
fn strict_runs_fail_on_warnings() {
    assert_eq!(strict_failure(false, 3), None);
    assert_eq!(strict_failure(true, 0), None);
    assert_eq!(
        strict_failure(true, 2).as_deref(),
        Some("strict mode rejected 2 warning(s)")
    );
}

#[test]
fn warnings_are_reported_with_code_and_path() {
    let warning = ChartWarning::new("text_truncated", "/title", "text was shortened");
    assert_eq!(
        warning_line(&warning),
        "warning[text_truncated] at /title: text was shortened"
    );
}
