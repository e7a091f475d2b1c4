//! The command line: `chartlet render <spec.json|-> [options]`.
//!
//! The arguments are read into a [`Command`]; reading files and writing
//! the result is left to the program that runs it.

use vstd::prelude::*;

use crate::describe::texts;
use crate::digits::{decimal, push_decimal};
use crate::error::ChartWarning;
use crate::{RenderFormat, TableMode};

verus! {

/// The usage line.
pub const USAGE: &'static str = "usage: chartlet render <spec.json|-> [--format svg|html] [-o <path>] [--id-prefix <prefix>] [--table details|visible] [--strict]";

/// The usage line, as the program prints it for `--help` and after a
/// mistake in the arguments.
pub fn usage() -> (text: String)
    ensures
        text@ == USAGE@,
{
    USAGE.to_string()
}

/// What `format!("{:?}", text)` writes for a text: the text in double
/// quotes, with quotes, backslashes and control characters escaped.
pub uninterp spec fn debug_quoted(text: Seq<char>) -> Seq<char>;

/// The text as `<str as core::fmt::Debug>::fmt` writes it. Stated: the
/// result is [`debug_quoted`] of the text; how it escapes is left unsaid.
#[verifier::external_body]
fn quoted(text: &str) -> (out: String)
    ensures
        out@ == debug_quoted(text@),
{
    format!("{text:?}")
}

/// A request to render one specification.
#[derive(Debug, Clone)]
pub struct RenderRequest {
    /// The path of the specification; `-` for standard input.
    pub input: String,
    pub format: RenderFormat,
    /// The path to write to; standard output when `None`.
    pub output: Option<String>,
    pub id_prefix: Option<String>,
    /// Whether a warning fails the run.
    pub strict: bool,
    pub table_mode: TableMode,
}

/// An optional text as text.
pub open spec fn optional_text(text: Option<String>) -> Option<Seq<char>> {
    match text {
        Some(text) => Some(text@),
        None => None,
    }
}

/// Input, format, output, id prefix, strictness and table mode of a request.
pub type Request = (Seq<char>, RenderFormat, Option<Seq<char>>, Option<Seq<char>>, bool, TableMode);

impl View for RenderRequest {
    type V = Request;

    open spec fn view(&self) -> Request {
        (
            self.input@,
            self.format,
            optional_text(self.output),
            optional_text(self.id_prefix),
            self.strict,
            self.table_mode,
        )
    }
}

/// What the command line asks for.
#[derive(Debug, Clone)]
pub enum Command {
    /// Print the usage line.
    Help,
    /// Render a specification.
    Render(RenderRequest),
}

/// What the options from `arguments[k]` on ask for, after the options
/// before them gave `request`: `Ok(None)` for help.
pub open spec fn options_outcome(arguments: Seq<Seq<char>>, k: int, request: Request) -> Result<
    Option<Request>,
    Seq<char>,
>
    decreases arguments.len() - k,
{
    if k < 0 || k >= arguments.len() {
        Ok(Some(request))
    } else {
        let argument = arguments[k];
        let has_value = k + 1 < arguments.len();
        if argument == "--format"@ {
            if has_value && arguments[k + 1] == "svg"@ {
                options_outcome(
                    arguments,
                    k + 2,
                    (request.0, RenderFormat::Svg, request.2, request.3, request.4, request.5),
                )
            } else if has_value && arguments[k + 1] == "html"@ {
                options_outcome(
                    arguments,
                    k + 2,
                    (request.0, RenderFormat::Html, request.2, request.3, request.4, request.5),
                )
            } else {
                Err("--format must be svg or html"@)
            }
        } else if argument == "-o"@ || argument == "--output"@ {
            if has_value {
                options_outcome(
                    arguments,
                    k + 2,
                    (request.0, request.1, Some(arguments[k + 1]), request.3, request.4, request.5),
                )
            } else {
                Err("--output requires a path"@)
            }
        } else if argument == "--id-prefix"@ {
            if has_value {
                options_outcome(
                    arguments,
                    k + 2,
                    (request.0, request.1, request.2, Some(arguments[k + 1]), request.4, request.5),
                )
            } else {
                Err("--id-prefix requires a value"@)
            }
        } else if argument == "--strict"@ {
            options_outcome(
                arguments,
                k + 1,
                (request.0, request.1, request.2, request.3, true, request.5),
            )
        } else if argument == "--table"@ {
            if has_value && arguments[k + 1] == "details"@ {
                options_outcome(
                    arguments,
                    k + 2,
                    (request.0, request.1, request.2, request.3, request.4, TableMode::Details),
                )
            } else if has_value && arguments[k + 1] == "visible"@ {
                options_outcome(
                    arguments,
                    k + 2,
                    (request.0, request.1, request.2, request.3, request.4, TableMode::Visible),
                )
            } else {
                Err("--table must be details or visible"@)
            }
        } else if argument == "-h"@ || argument == "--help"@ {
            Ok(None)
        } else {
            Err("unknown argument "@ + debug_quoted(argument) + "\n\n"@ + USAGE@)
        }
    }
}

/// What the arguments after the program name ask for: `Ok(None)` for
/// help, or the message of the mistake.
pub open spec fn arguments_outcome(arguments: Seq<Seq<char>>) -> Result<Option<Request>, Seq<char>> {
    if arguments.len() == 0 {
        Err(USAGE@)
    } else if arguments[0] == "-h"@ || arguments[0] == "--help"@ {
        Ok(None)
    } else if arguments[0] != "render"@ || arguments.len() < 2 {
        Err(USAGE@)
    } else {
        options_outcome(
            arguments,
            2,
            (arguments[1], RenderFormat::Svg, None, None, false, TableMode::Details),
        )
    }
}

/// The outcome that a parsed command line stands for.
pub open spec fn command_outcome(result: Result<Command, String>) -> Result<Option<Request>, Seq<char>> {
    match result {
        Ok(Command::Help) => Ok(None),
        Ok(Command::Render(request)) => Ok(Some(request@)),
        Err(message) => Err(message@),
    }
}

/// Whether two texts are equal.
pub fn same_text(a: &str, b: &str) -> (same: bool)
    ensures
        same == (a@ == b@),
{
    let length = a.unicode_len();
    if length != b.unicode_len() {
        return false;
    }
    let mut i: usize = 0;
    while i < length
        invariant
            length == a@.len(),
            length == b@.len(),
            i <= length,
            forall|j: int| 0 <= j < i ==> a@[j] == b@[j],
        decreases length - i,
    {
        if a.get_char(i) != b.get_char(i) {
            return false;
        }
        i += 1;
    }
    assert(a@ =~= b@);
    true
}

fn copy_optional(text: &Option<String>) -> (copy: Option<String>)
    ensures
        optional_text(copy) == optional_text(*text),
{
    match text {
        Some(text) => Some(text.clone()),
        None => None,
    }
}

/// Reads the arguments after the program name.
///
/// # Errors
///
/// The usage line, or a message that names the argument that is wrong.
pub fn parse_arguments(arguments: &Vec<String>) -> (result: Result<Command, String>)
    ensures
        command_outcome(result) == arguments_outcome(texts(arguments@)),
{
    let ghost views = texts(arguments@);
    if arguments.len() == 0 {
        return Err(usage());
    }
    assert(views[0] == arguments@[0]@);
    if same_text(arguments[0].as_str(), "-h") || same_text(arguments[0].as_str(), "--help") {
        return Ok(Command::Help);
    }
    if !same_text(arguments[0].as_str(), "render") || arguments.len() < 2 {
        return Err(usage());
    }
    assert(views[1] == arguments@[1]@);
    let mut request = RenderRequest {
        input: arguments[1].clone(),
        format: RenderFormat::Svg,
        output: None,
        id_prefix: None,
        strict: false,
        table_mode: TableMode::Details,
    };
    let mut k: usize = 2;
    while k < arguments.len()
        invariant
            views == texts(arguments@),
            2 <= k <= arguments@.len(),
            arguments_outcome(views) == options_outcome(views, k as int, request@),
        decreases arguments@.len() - k,
    {
        let argument = arguments[k].as_str();
        assert(views[k as int] == argument@);
        let has_value = k + 1 < arguments.len();
        if has_value {
            assert(views[k + 1] == arguments@[k + 1]@);
        }
        if same_text(argument, "--format") {
            if has_value && same_text(arguments[k + 1].as_str(), "svg") {
                request.format = RenderFormat::Svg;
            } else if has_value && same_text(arguments[k + 1].as_str(), "html") {
                request.format = RenderFormat::Html;
            } else {
                return Err("--format must be svg or html".to_string());
            }
            k += 2;
        } else if same_text(argument, "-o") || same_text(argument, "--output") {
            if !has_value {
                return Err("--output requires a path".to_string());
            }
            request.output = Some(arguments[k + 1].clone());
            k += 2;
        } else if same_text(argument, "--id-prefix") {
            if !has_value {
                return Err("--id-prefix requires a value".to_string());
            }
            request.id_prefix = Some(arguments[k + 1].clone());
            k += 2;
        } else if same_text(argument, "--strict") {
            request.strict = true;
            k += 1;
        } else if same_text(argument, "--table") {
            if has_value && same_text(arguments[k + 1].as_str(), "details") {
                request.table_mode = TableMode::Details;
            } else if has_value && same_text(arguments[k + 1].as_str(), "visible") {
                request.table_mode = TableMode::Visible;
            } else {
                return Err("--table must be details or visible".to_string());
            }
            k += 2;
        } else if same_text(argument, "-h") || same_text(argument, "--help") {
            return Ok(Command::Help);
        } else {
            let mut message = String::new();
            message.append("unknown argument ");
            let shown = quoted(argument);
            message.append(shown.as_str());
            message.append("\n\n");
            message.append(USAGE);
            assert(message@ =~= "unknown argument "@ + debug_quoted(argument@) + "\n\n"@ + USAGE@);
            return Err(message);
        }
    }
    Ok(Command::Render(request))
}

/// How a warning is reported on standard error.
pub fn warning_line(warning: &ChartWarning) -> (line: String)
    ensures
        line@ == "warning["@ + warning.code@ + "] at "@ + warning.path@ + ": "@ + warning.message@,
{
    let mut line = String::new();
    line.append("warning[");
    line.append(warning.code);
    line.append("] at ");
    line.append(warning.path.as_str());
    line.append(": ");
    line.append(warning.message.as_str());
    assert(line@ =~= "warning["@ + warning.code@ + "] at "@ + warning.path@ + ": "@ + warning.message@);
    line
}

/// The failure of a strict run that produced `warnings` warnings: none
/// unless the run is strict and there is a warning.
pub fn strict_failure(strict: bool, warnings: usize) -> (failure: Option<String>)
    ensures
        match failure {
            Some(message) => strict && warnings > 0 && message@ == "strict mode rejected "@
                + decimal(warnings as int) + " warning(s)"@,
            None => !strict || warnings == 0,
        },
{
    if strict && warnings > 0 {
        let mut message = String::new();
        message.append("strict mode rejected ");
        push_decimal(&mut message, warnings);
        message.append(" warning(s)");
        assert(message@ =~= "strict mode rejected "@ + decimal(warnings as int) + " warning(s)"@);
        Some(message)
    } else {
        None
    }
}

proof fn lemma_options_prefix(arguments: Seq<Seq<char>>, more: Seq<Seq<char>>, k: int, request: Request)
    requires
        0 <= k <= arguments.len(),
        options_outcome(arguments, k, request) is Ok,
        options_outcome(arguments, k, request)->Ok_0 is Some,
    ensures
        options_outcome(arguments + more, k, request) == options_outcome(
            arguments + more,
            arguments.len() as int,
            options_outcome(arguments, k, request)->Ok_0->Some_0,
        ),
    decreases arguments.len() - k,
{
    let all = arguments + more;
    reveal_strlit("--format");
    reveal_strlit("-o");
    reveal_strlit("--output");
    reveal_strlit("--id-prefix");
    reveal_strlit("--strict");
    reveal_strlit("--table");
    reveal_strlit("-h");
    reveal_strlit("--help");
    if k < arguments.len() {
        assert(all[k] == arguments[k]);
        if k + 1 < arguments.len() {
            assert(all[k + 1] == arguments[k + 1]);
        }
        let argument = arguments[k];
        if argument == "--format"@ {
            if arguments[k + 1] == "svg"@ {
                lemma_options_prefix(arguments, more, k + 2, (request.0, RenderFormat::Svg, request.2, request.3, request.4, request.5));
            } else {
                lemma_options_prefix(arguments, more, k + 2, (request.0, RenderFormat::Html, request.2, request.3, request.4, request.5));
            }
        } else if argument == "-o"@ || argument == "--output"@ {
            lemma_options_prefix(arguments, more, k + 2, (request.0, request.1, Some(arguments[k + 1]), request.3, request.4, request.5));
        } else if argument == "--id-prefix"@ {
            lemma_options_prefix(arguments, more, k + 2, (request.0, request.1, request.2, Some(arguments[k + 1]), request.4, request.5));
        } else if argument == "--strict"@ {
            lemma_options_prefix(arguments, more, k + 1, (request.0, request.1, request.2, request.3, true, request.5));
        } else if argument == "--table"@ {
            if arguments[k + 1] == "details"@ {
                lemma_options_prefix(arguments, more, k + 2, (request.0, request.1, request.2, request.3, request.4, TableMode::Details));
            } else {
                lemma_options_prefix(arguments, more, k + 2, (request.0, request.1, request.2, request.3, request.4, TableMode::Visible));
            }
        }
    }
}

/// The last `--format` option decides the format: a command line that asks
/// for a rendering still does, with the same input and options, after
/// `--format svg` is appended, and then asks for SVG; after `--format html`
/// it asks for HTML.
pub proof fn lemma_last_format_decides(arguments: Seq<Seq<char>>)
    requires
        arguments_outcome(arguments) is Ok,
        arguments_outcome(arguments)->Ok_0 is Some,
    ensures
        ({
            let request = arguments_outcome(arguments)->Ok_0->Some_0;
            &&& arguments_outcome(arguments + seq!["--format"@, "svg"@]) == Ok::<Option<Request>, Seq<char>>(
                Some((request.0, RenderFormat::Svg, request.2, request.3, request.4, request.5)),
            )
            &&& arguments_outcome(arguments + seq!["--format"@, "html"@]) == Ok::<Option<Request>, Seq<char>>(
                Some((request.0, RenderFormat::Html, request.2, request.3, request.4, request.5)),
            )
        }),
{
    reveal_strlit("--format");
    reveal_strlit("-o");
    reveal_strlit("--output");
    reveal_strlit("--id-prefix");
    reveal_strlit("--strict");
    reveal_strlit("--table");
    reveal_strlit("-h");
    reveal_strlit("--help");
    reveal_strlit("render");
    reveal_strlit("svg");
    reveal_strlit("html");
    assert("html"@.len() != "svg"@.len());
    let start = (arguments[1], RenderFormat::Svg, None, None, false, TableMode::Details);
    let request = arguments_outcome(arguments)->Ok_0->Some_0;
    let svg = arguments + seq!["--format"@, "svg"@];
    let html = arguments + seq!["--format"@, "html"@];
    assert(svg[0] == arguments[0] && svg[1] == arguments[1]);
    assert(html[0] == arguments[0] && html[1] == arguments[1]);
    lemma_options_prefix(arguments, seq!["--format"@, "svg"@], 2, start);
    lemma_options_prefix(arguments, seq!["--format"@, "html"@], 2, start);
    let n = arguments.len() as int;
    assert(svg[n] == "--format"@ && svg[n + 1] == "svg"@);
    assert(html[n] == "--format"@ && html[n + 1] == "html"@);
    assert(arguments_outcome(svg) == options_outcome(svg, 2, start));
    assert(arguments_outcome(html) == options_outcome(html, 2, start));
    assert(options_outcome(svg, n, request) == options_outcome(svg, n + 2, (request.0, RenderFormat::Svg, request.2, request.3, request.4, request.5)));
    assert(options_outcome(html, n, request) == options_outcome(html, n + 2, (request.0, RenderFormat::Html, request.2, request.3, request.4, request.5)));
    assert(options_outcome(svg, n + 2, (request.0, RenderFormat::Svg, request.2, request.3, request.4, request.5))
        == Ok::<Option<Request>, Seq<char>>(Some((request.0, RenderFormat::Svg, request.2, request.3, request.4, request.5))));
    assert(options_outcome(html, n + 2, (request.0, RenderFormat::Html, request.2, request.3, request.4, request.5))
        == Ok::<Option<Request>, Seq<char>>(Some((request.0, RenderFormat::Html, request.2, request.3, request.4, request.5))));
}

} // verus!
