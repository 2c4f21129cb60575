//! The interactive prompt's commands: their grammar, and how a line that is
//! no command is reported.

use vstd::prelude::*;
use vstd::string::*;

use crate::command::errors::{ErrorView, ParseError, ParseErrorReason, ReasonView};

pub mod errors;
pub mod grammar;
pub mod writing;

verus! {

/// How severe a diagnostic is.
#[derive(Copy, Clone, Debug, PartialEq, Eq, Structural)]
pub enum Level {
    Bug,
    Error,
    Warning,
    Note,
    Help,
}

/// Whether a span is what the diagnostic is about or goes with it.
#[derive(Copy, Clone, Debug, PartialEq, Eq, Structural)]
pub enum SpanStyle {
    Primary,
    Secondary,
}

/// A range of characters of the line, with what to say of it.
pub struct SpanLabel {
    /// First character of the range.
    pub start: usize,
    /// One behind the last character of the range.
    pub end: usize,
    pub label: Option<String>,
    pub style: SpanStyle,
}

/// A message to the operator about a line.
pub struct Diagnostic {
    pub level: Level,
    pub message: String,
    pub code: Option<String>,
    pub spans: Vec<SpanLabel>,
}

/// What a span label holds.
pub struct SpanView {
    pub start: int,
    pub end: int,
    pub label: Option<Seq<char>>,
    pub style: SpanStyle,
}

/// What a diagnostic holds.
pub struct DiagnosticView {
    pub level: Level,
    pub message: Seq<char>,
    pub code: Option<Seq<char>>,
    pub spans: Seq<SpanView>,
}

impl View for SpanLabel {
    type V = SpanView;

    open spec fn view(&self) -> SpanView {
        SpanView {
            start: self.start as int,
            end: self.end as int,
            label: match self.label {
                Some(label) => Some(label@),
                None => None,
            },
            style: self.style,
        }
    }
}

impl View for Diagnostic {
    type V = DiagnosticView;

    open spec fn view(&self) -> DiagnosticView {
        DiagnosticView {
            level: self.level,
            message: self.message@,
            code: match self.code {
                Some(code) => Some(code@),
                None => None,
            },
            spans: self.spans@.map_values(|span: SpanLabel| span@),
        }
    }
}

/// `prefix`, then `token` in double quotes.
pub open spec fn quoted(prefix: Seq<char>, token: Seq<char>) -> Seq<char> {
    prefix + seq!['"'] + token + seq!['"']
}

/// The error diagnostic with the code `S000` that says `message` and marks
/// the range with `label`.
pub open spec fn error_diagnostic(message: Seq<char>, label: Seq<char>, start: int, end: int) -> DiagnosticView {
    DiagnosticView {
        level: Level::Error,
        message,
        code: Some("S000"@),
        spans: seq![SpanView { start, end, label: Some(label), style: SpanStyle::Primary }],
    }
}

/// The diagnostics that report `error`: one for a missing or unexpected
/// token, one for a failed node of which nothing more is known, and for any
/// other failed node those of the failures inside it, in their order.
pub open spec fn diagnostics_of(error: ErrorView) -> Seq<DiagnosticView>
    decreases error,
{
    match error.reason {
        ReasonView::MissingToken(token) => seq![
            error_diagnostic(
                quoted("Missing token: "@, token),
                quoted("missing "@, token),
                error.start,
                error.end,
            ),
        ],
        ReasonView::UnexpectedToken(token) => seq![
            error_diagnostic(
                quoted("Unexpected token: "@, token),
                quoted("unexpected "@, token),
                error.start,
                error.end,
            ),
        ],
        ReasonView::FailedNode(errors) => if errors.len() == 0 {
            seq![error_diagnostic("Failed to parse node"@, "failed"@, error.start, error.end)]
        } else {
            all_diagnostics(errors, errors.len())
        },
    }
}

/// The diagnostics that report the first `count` errors of `errors`.
pub open spec fn all_diagnostics(errors: Seq<ErrorView>, count: nat) -> Seq<DiagnosticView>
    decreases errors, count,
{
    if count == 0 || count > errors.len() {
        Seq::empty()
    } else {
        all_diagnostics(errors, (count - 1) as nat) + diagnostics_of(errors[count - 1])
    }
}

/// The views of the diagnostics in `diagnostics`.
pub open spec fn diagnostics_view(diagnostics: Seq<Diagnostic>) -> Seq<DiagnosticView> {
    diagnostics.map_values(|diagnostic: Diagnostic| diagnostic@)
}

fn quote(prefix: &str, token: &str) -> (text: String)
    ensures
        text@ == quoted(prefix@, token@),
{
    let mut text = prefix.to_owned();
    text.push('"');
    text.append(token);
    text.push('"');
    assert(text@ =~= quoted(prefix@, token@));
    text
}

fn make_diagnostic(message: String, label: String, start: usize, end: usize) -> (diagnostic:
    Diagnostic)
    ensures
        diagnostic@ == error_diagnostic(message@, label@, start as int, end as int),
{
    let mut spans: Vec<SpanLabel> = Vec::new();
    spans.push(SpanLabel { start, end, label: Some(label), style: SpanStyle::Primary });
    let diagnostic = Diagnostic {
        level: Level::Error,
        message,
        code: Some(String::from_str("S000")),
        spans,
    };
    assert(diagnostic@.spans =~= seq![
        SpanView {
            start: start as int,
            end: end as int,
            label: Some(label@),
            style: SpanStyle::Primary,
        },
    ]);
    diagnostic
}

/// Appends the diagnostics that report `error` to `diagnostics`.
pub fn convert_parse_error_to_diagnostics(error: &ParseError, diagnostics: &mut Vec<Diagnostic>)
    ensures
        diagnostics_view(final(diagnostics)@) == diagnostics_view(old(diagnostics)@) + diagnostics_of(
            error@,
        ),
    decreases error,
{
    let ghost before = diagnostics_view(diagnostics@);
    match &error.reason {
        ParseErrorReason::MissingToken(token) => {
            let diagnostic = make_diagnostic(
                quote("Missing token: ", token.as_str()),
                quote("missing ", token.as_str()),
                error.start,
                error.end,
            );
            diagnostics.push(diagnostic);
            assert(diagnostics_view(diagnostics@) =~= before + diagnostics_of(error@));
        },
        ParseErrorReason::UnexpectedToken(token) => {
            let diagnostic = make_diagnostic(
                quote("Unexpected token: ", token.as_str()),
                quote("unexpected ", token.as_str()),
                error.start,
                error.end,
            );
            diagnostics.push(diagnostic);
            assert(diagnostics_view(diagnostics@) =~= before + diagnostics_of(error@));
        },
        ParseErrorReason::FailedNode(errors) => {
            if errors.len() == 0 {
                let diagnostic = make_diagnostic(
                    String::from_str("Failed to parse node"),
                    String::from_str("failed"),
                    error.start,
                    error.end,
                );
                diagnostics.push(diagnostic);
                assert(diagnostics_view(diagnostics@) =~= before + diagnostics_of(error@));
            } else {
                let ghost inner = crate::command::errors::errors_view(errors@, errors@.len());
                let mut i: usize = 0;
                assert(before + all_diagnostics(inner, 0) =~= before);
                while i < errors.len()
                    invariant
                        i <= errors.len(),
                        inner == crate::command::errors::errors_view(errors@, errors@.len()),
                        error.reason == ParseErrorReason::FailedNode(*errors),
                        diagnostics_view(diagnostics@) == before + all_diagnostics(inner, i as nat),
                    decreases errors.len() - i,
                {
                    proof {
                        crate::command::errors::lemma_errors_view(errors@, errors@.len());
                    }
                    proof {
                        assert(decreases_to!(*error => error.reason));
                        assert(decreases_to!(error.reason => error.reason->FailedNode_0));
                        assert(error.reason->FailedNode_0 == *errors);
                        assert(decreases_to!(*errors => errors@));
                        assert(decreases_to!(errors@ => errors@[i as int]));
                    }
                    convert_parse_error_to_diagnostics(&errors[i], diagnostics);
                    assert(before + all_diagnostics(inner, i as nat) + diagnostics_of(inner[i as int])
                        =~= before + all_diagnostics(inner, (i + 1) as nat));
                    i += 1;
                }
                proof {
                    crate::command::errors::lemma_errors_view(errors@, errors@.len());
                }
            }
        },
    }
}

/// The text that the `help` command shows.
pub const COMMAND_HELP: &'static str = "Commands:
    help (h): Print command help.
    step (s): Step to the next instruction.
    continue (c): Continue the program until the next debug event.
    registers (r): Print the registers.
    display-bytes (db): Display data at a memory location. For example, `display-bytes 0x123`.
    eval (?): Add addresses. For example, `eval 0x123 + 10`.
    list-nearest (ln): List the symbol nearest to the address. For example, `list-nearest 0x123`.
    add-breakpoint (bp): Set a breakpoint at an address. For example, `add-breakpoint 0x123`.
    remove-breakpoint (bc): Remove the breakpoint with an id. For example, `remove-breakpoint 0`.
    list-breakpoints (bl): List the breakpoints.
    quit (q): Quit.";

} // verus!
