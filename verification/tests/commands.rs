use dbgcore::command::errors::{ParseError, ParseErrorReason};
use dbgcore::command::grammar::{parse, parse_int, CommandExpr, EvalExpr, Keyword};
use dbgcore::command::{
    convert_parse_error_to_diagnostics, Diagnostic, Level, SpanStyle, COMMAND_HELP,
};
use dbgcore::eval::{evaluate_expression, EvalContext};
use dbgcore::module::{Export, ExportTarget, Module};
use dbgcore::process::Process;

fn shape(expr: &EvalExpr) -> String {
    match expr {
        EvalExpr::Number(value) => format!("{}", value),
        EvalExpr::Add(left, _, right) => format!("({} + {})", shape(left), shape(right)),
        EvalExpr::Symbol(name) => format!("<{}>", name),
    }
}

fn parts(line: &str) -> (Keyword, Option<String>) {
    match parse(line) {
        Ok(command) => {
            let (keyword, argument) = command.into_parts();
            (keyword, argument.map(|expr| shape(&expr)))
        }
        Err(_) => panic!("{:?} should be a command", line),
    }
}

fn failure(line: &str) -> (String, usize, usize) {
    match parse(line) {
        Ok(_) => panic!("{:?} should be no command", line),
        Err(errors) => {
            assert_eq!(errors.len(), 1);
            (describe(&errors[0]), errors[0].start, errors[0].end)
        }
    }
}

fn describe(error: &ParseError) -> String {
    match &error.reason {
        ParseErrorReason::UnexpectedToken(token) => format!("unexpected {:?}", token),
        ParseErrorReason::MissingToken(token) => format!("missing {:?}", token),
        ParseErrorReason::FailedNode(errors) => {
            let inner: Vec<String> = errors
                .iter()
                .map(|e| format!("{} at {}..{}", describe(e), e.start, e.end))
                .collect();
            format!("failed [{}]", inner.join(", "))
        }
    }
}

fn evaluate(line: &str, process: &Process) -> Result<u64, String> {
    match parse(line) {
        Ok(command) => match command.into_parts() {
            (_, Some(expr)) => evaluate_expression(expr, &EvalContext { process }),
            _ => panic!("{:?} has no expression", line),
        },
        Err(_) => panic!("{:?} should be a command", line),
    }
}

fn kernel32() -> Process {
    let mut process = Process::new();
    process.push_module(Module {
        name: "kernel32".to_string(),
        address: 0x7000,
        size: 0x1000,
        exports: vec![Export {
            name: Some("ExitProcess".to_string()),
            ordinal: 1,
            target: ExportTarget::RVA(0x7100),
        }],
        pdb_name: None,
        pdb_info: None,
        pdb: Err("No matching PDB".to_string()),
    });
    process
}

#[test]
fn every_keyword_and_alias_is_a_command() {
    assert_eq!(parts("help"), (Keyword::Help, None));
    assert_eq!(parts("h"), (Keyword::HelpAlias, None));
    assert_eq!(parts("step"), (Keyword::Step, None));
    assert_eq!(parts("s"), (Keyword::StepAlias, None));
    assert_eq!(parts("continue"), (Keyword::Continue, None));
    assert_eq!(parts("c"), (Keyword::ContinueAlias, None));
    assert_eq!(parts("registers"), (Keyword::DisplayRegisters, None));
    assert_eq!(parts("r"), (Keyword::DisplayRegistersAlias, None));
    assert_eq!(parts("display-bytes 1"), (Keyword::DisplayBytes, Some("1".to_string())));
    assert_eq!(parts("db 1"), (Keyword::DisplayBytesAlias, Some("1".to_string())));
    assert_eq!(parts("eval 1"), (Keyword::Evaluate, Some("1".to_string())));
    assert_eq!(parts("? 1"), (Keyword::EvaluateAlias, Some("1".to_string())));
    assert_eq!(parts("list-nearest 1"), (Keyword::ListNearest, Some("1".to_string())));
    assert_eq!(parts("ln 1"), (Keyword::ListNearestAlias, Some("1".to_string())));
    assert_eq!(parts("add-breakpoint 1"), (Keyword::AddBreakpoint, Some("1".to_string())));
    assert_eq!(parts("bp 1"), (Keyword::AddBreakpointAlias, Some("1".to_string())));
    assert_eq!(parts("remove-breakpoint 1"), (Keyword::RemoveBreakpoint, Some("1".to_string())));
    assert_eq!(parts("bc 1"), (Keyword::RemoveBreakpointAlias, Some("1".to_string())));
    assert_eq!(parts("list-breakpoints"), (Keyword::ListBreakpoint, None));
    assert_eq!(parts("bl"), (Keyword::ListBreakpointAlias, None));
    assert_eq!(parts("quit"), (Keyword::Quit, None));
    assert_eq!(parts("q"), (Keyword::QuitAlias, None));
}

#[test]
fn commands_keep_their_variant() {
    assert!(matches!(parse("help"), Ok(CommandExpr::Help(()))));
    assert!(matches!(parse("s"), Ok(CommandExpr::StepAlias(()))));
    assert!(matches!(parse("bl"), Ok(CommandExpr::ListBreakpointAlias(()))));
    match parse("db 0x10") {
        Ok(CommandExpr::DisplayBytesAlias((), expr)) => assert_eq!(shape(&expr), "16"),
        _ => panic!("db 0x10 should display bytes"),
    }
    match parse("remove-breakpoint 3") {
        Ok(CommandExpr::RemoveBreakpoint((), expr)) => assert_eq!(shape(&expr), "3"),
        _ => panic!("remove-breakpoint 3 should remove a breakpoint"),
    }
}

#[test]
fn spaces_do_not_matter() {
    assert_eq!(parts("  help  "), (Keyword::Help, None));
    assert_eq!(parts("\tq\r\n"), (Keyword::QuitAlias, None));
    assert_eq!(parts("eval 1+2"), (Keyword::Evaluate, Some("(1 + 2)".to_string())));
    assert_eq!(parts("eval   1  +\t2  "), (Keyword::Evaluate, Some("(1 + 2)".to_string())));
    assert_eq!(parts("eval1"), (Keyword::Evaluate, Some("1".to_string())));
    assert_eq!(parts("?0x10"), (Keyword::EvaluateAlias, Some("16".to_string())));
}

#[test]
fn the_longest_keyword_is_taken() {
    assert_eq!(parts("step"), (Keyword::Step, None));
    assert_eq!(parts("registers"), (Keyword::DisplayRegisters, None));
    assert_eq!(parts("list-breakpoints"), (Keyword::ListBreakpoint, None));
    assert_eq!(failure("stop"), ("unexpected \"top\"".to_string(), 1, 4));
    assert_eq!(failure("cont"), ("unexpected \"ont\"".to_string(), 1, 4));
    assert_eq!(failure("helpme now"), ("unexpected \"me\"".to_string(), 4, 6));
    assert_eq!(failure("list-breakpoint"), ("unexpected \"list-breakpoint\"".to_string(), 0, 15));
    assert_eq!(
        failure("bpx"),
        ("failed [unexpected \"x\" at 2..3]".to_string(), 2, 3)
    );
}

#[test]
fn sums_are_folded_from_the_left() {
    assert_eq!(
        parts("eval 1 + 0x2 + 3"),
        (Keyword::Evaluate, Some("((1 + 2) + 3)".to_string()))
    );
    assert_eq!(
        parts("? 1 + 2 + 3 + 4"),
        (Keyword::EvaluateAlias, Some("(((1 + 2) + 3) + 4)".to_string()))
    );
    assert_eq!(evaluate("eval 1 + 0x2 + 3", &Process::new()), Ok(6));
}

#[test]
fn numbers_are_decimal_or_hexadecimal() {
    let process = Process::new();
    assert_eq!(evaluate("eval 0", &process), Ok(0));
    assert_eq!(evaluate("eval 007", &process), Ok(7));
    assert_eq!(evaluate("eval 0x123 + 10", &process), Ok(0x123 + 10));
    assert_eq!(evaluate("eval 0xAbCdEf", &process), Ok(0xabcdef));
    assert_eq!(evaluate("eval 18446744073709551615", &process), Ok(u64::MAX));
    assert_eq!(evaluate("eval 0xffffffffffffffff", &process), Ok(u64::MAX));
    assert_eq!(evaluate("eval 0x0000000000000000000001", &process), Ok(1));
}

#[test]
fn sums_wrap_around() {
    let process = Process::new();
    assert_eq!(evaluate("eval 0xffffffffffffffff + 1", &process), Ok(0));
    assert_eq!(evaluate("eval 0xffffffffffffffff + 0xffffffffffffffff", &process), Ok(u64::MAX - 1));
    assert_eq!(evaluate("eval 18446744073709551615 + 2 + 3", &process), Ok(4));
}

#[test]
fn parse_int_reads_what_the_grammar_takes_for_a_number() {
    assert_eq!(parse_int("0"), Some(0));
    assert_eq!(parse_int("42"), Some(42));
    assert_eq!(parse_int("0x2a"), Some(42));
    assert_eq!(parse_int("0x2A"), Some(42));
    assert_eq!(parse_int("18446744073709551615"), Some(u64::MAX));
    assert_eq!(parse_int("18446744073709551616"), None);
    assert_eq!(parse_int("0x10000000000000000"), None);
    assert_eq!(parse_int(""), None);
    assert_eq!(parse_int("0x"), None);
    assert_eq!(parse_int("0X10"), None);
    assert_eq!(parse_int("12a"), None);
    assert_eq!(parse_int("a12"), None);
    assert_eq!(parse_int("0xg"), None);
    assert_eq!(parse_int("+1"), None);
    assert_eq!(parse_int(" 1"), None);
    assert_eq!(parse_int("١٢"), None);
}

#[test]
fn a_symbol_is_resolved_when_it_is_evaluated() {
    assert_eq!(
        parts("eval kernel32!ExitProcess"),
        (Keyword::Evaluate, Some("<kernel32!ExitProcess>".to_string()))
    );
    assert_eq!(evaluate("eval kernel32!ExitProcess", &kernel32()), Ok(0x7100));
    assert_eq!(evaluate("eval kernel32!ExitProcess + 0x10", &kernel32()), Ok(0x7110));
    assert_eq!(evaluate("eval 1 + kernel32!ExitProcess+1", &kernel32()), Ok(0x7102));
    assert_eq!(
        evaluate("eval kernel32!ExitProcess", &Process::new()),
        Err("Could not find module kernel32".to_string())
    );
    assert_eq!(
        evaluate("eval kernel32!Missing", &kernel32()),
        Err("Could not find Missing in module kernel32".to_string())
    );
}

#[test]
fn the_failure_of_the_left_side_of_a_sum_comes_first() {
    assert_eq!(
        evaluate("eval a!x + b!y", &kernel32()),
        Err("Could not find module a".to_string())
    );
    assert_eq!(
        evaluate("eval 1 + b!y + a!x", &kernel32()),
        Err("Could not find module b".to_string())
    );
}

#[test]
fn an_unqualified_symbol_fails_with_a_message() {
    assert_eq!(failure("eval foo"), ("failed [unexpected \"foo\" at 5..8]".to_string(), 4, 8));
    let unqualified = EvalExpr::Symbol("foo".to_string());
    assert_eq!(
        evaluate_expression(unqualified, &EvalContext { process: &kernel32() }),
        Err("Searching all modules for a symbol is not yet implmented".to_string())
    );
}

#[test]
fn a_line_that_is_no_command_is_reported_with_its_place() {
    assert_eq!(failure(""), ("missing \"command\"".to_string(), 0, 0));
    assert_eq!(failure("   "), ("missing \"command\"".to_string(), 3, 3));
    assert_eq!(failure("  frobnicate now"), ("unexpected \"frobnicate\"".to_string(), 2, 12));
    assert_eq!(failure("help me"), ("unexpected \"me\"".to_string(), 5, 7));
    assert_eq!(failure("q 1 + 2"), ("unexpected \"1\"".to_string(), 2, 3));
    assert_eq!(failure("eval"), ("failed [missing \"expression\" at 4..4]".to_string(), 4, 4));
    assert_eq!(failure("eval  "), ("failed [missing \"expression\" at 6..6]".to_string(), 4, 6));
    assert_eq!(failure("eval 1 +"), ("failed [missing \"expression\" at 8..8]".to_string(), 4, 8));
    assert_eq!(
        failure("eval 1 + + 2"),
        ("failed [missing \"expression\" at 9..9]".to_string(), 4, 12)
    );
    assert_eq!(failure("eval + 1"), ("failed [missing \"expression\" at 5..5]".to_string(), 4, 8));
    assert_eq!(
        failure("eval 1 + x"),
        ("failed [unexpected \"x\" at 9..10]".to_string(), 4, 10)
    );
    assert_eq!(
        failure("db 0x"),
        ("failed [unexpected \"0x\" at 3..5]".to_string(), 2, 5)
    );
    assert_eq!(failure("eval 1 2"), ("unexpected \"2\"".to_string(), 7, 8));
    assert_eq!(failure("eval 1 2+3 4"), ("unexpected \"2+3\"".to_string(), 7, 10));
    assert_eq!(failure("eval !x"), ("failed [unexpected \"!x\" at 5..7]".to_string(), 4, 7));
    assert_eq!(failure("eval x!"), ("failed [unexpected \"x!\" at 5..7]".to_string(), 4, 7));
}

#[test]
fn a_number_that_does_not_fit_is_a_failed_node() {
    assert_eq!(
        failure("eval 18446744073709551616"),
        ("failed [failed [] at 5..25]".to_string(), 4, 25)
    );
    assert_eq!(
        failure("eval 1 + 0x10000000000000000"),
        ("failed [failed [] at 9..28]".to_string(), 4, 28)
    );
}

#[test]
fn places_are_counted_in_characters() {
    assert_eq!(failure("hélp"), ("unexpected \"élp\"".to_string(), 1, 4));
    assert_eq!(
        failure("eval größe + 1"),
        ("failed [unexpected \"größe\" at 5..10]".to_string(), 4, 14)
    );
}

fn diagnostics_of(line: &str) -> Vec<Diagnostic> {
    let mut diagnostics = Vec::new();
    match parse(line) {
        Ok(_) => panic!("{:?} should be no command", line),
        Err(errors) => {
            for error in errors.iter() {
                convert_parse_error_to_diagnostics(error, &mut diagnostics);
            }
        }
    }
    diagnostics
}

fn assert_diagnostic(diagnostic: &Diagnostic, message: &str, label: &str, start: usize, end: usize) {
    assert_eq!(diagnostic.level, Level::Error);
    assert_eq!(diagnostic.message, message);
    assert_eq!(diagnostic.code, Some("S000".to_string()));
    assert_eq!(diagnostic.spans.len(), 1);
    assert_eq!(diagnostic.spans[0].style, SpanStyle::Primary);
    assert_eq!(diagnostic.spans[0].label, Some(label.to_string()));
    assert_eq!((diagnostic.spans[0].start, diagnostic.spans[0].end), (start, end));
}

#[test]
fn an_unexpected_token_becomes_one_diagnostic() {
    let diagnostics = diagnostics_of("help me");
    assert_eq!(diagnostics.len(), 1);
    assert_diagnostic(&diagnostics[0], "Unexpected token: \"me\"", "unexpected \"me\"", 5, 7);
}

#[test]
fn a_missing_token_becomes_one_diagnostic() {
    let diagnostics = diagnostics_of("");
    assert_eq!(diagnostics.len(), 1);
    assert_diagnostic(&diagnostics[0], "Missing token: \"command\"", "missing \"command\"", 0, 0);
}

#[test]
fn a_failed_node_becomes_the_diagnostics_of_what_it_holds() {
    let diagnostics = diagnostics_of("eval 1 + x");
    assert_eq!(diagnostics.len(), 1);
    assert_diagnostic(&diagnostics[0], "Unexpected token: \"x\"", "unexpected \"x\"", 9, 10);
    let diagnostics = diagnostics_of("eval");
    assert_eq!(diagnostics.len(), 1);
    assert_diagnostic(
        &diagnostics[0],
        "Missing token: \"expression\"",
        "missing \"expression\"",
        4,
        4,
    );
}

#[test]
fn a_failed_node_that_holds_nothing_becomes_one_diagnostic() {
    let diagnostics = diagnostics_of("eval 99999999999999999999");
    assert_eq!(diagnostics.len(), 1);
    assert_diagnostic(&diagnostics[0], "Failed to parse node", "failed", 5, 25);
}

#[test]
fn diagnostics_are_appended_in_the_order_of_the_failures() {
    let inner = vec![
        ParseError { reason: ParseErrorReason::MissingToken("a".to_string()), start: 1, end: 1 },
        ParseError {
            reason: ParseErrorReason::FailedNode(vec![
                ParseError {
                    reason: ParseErrorReason::UnexpectedToken("b".to_string()),
                    start: 2,
                    end: 3,
                },
                ParseError { reason: ParseErrorReason::FailedNode(vec![]), start: 4, end: 5 },
            ]),
            start: 2,
            end: 5,
        },
        ParseError { reason: ParseErrorReason::UnexpectedToken("c".to_string()), start: 6, end: 7 },
    ];
    let error = ParseError { reason: ParseErrorReason::FailedNode(inner), start: 0, end: 9 };
    let mut diagnostics = Vec::new();
    convert_parse_error_to_diagnostics(
        &ParseError { reason: ParseErrorReason::MissingToken("first".to_string()), start: 0, end: 0 },
        &mut diagnostics,
    );
    convert_parse_error_to_diagnostics(&error, &mut diagnostics);
    assert_eq!(diagnostics.len(), 5);
    assert_diagnostic(&diagnostics[0], "Missing token: \"first\"", "missing \"first\"", 0, 0);
    assert_diagnostic(&diagnostics[1], "Missing token: \"a\"", "missing \"a\"", 1, 1);
    assert_diagnostic(&diagnostics[2], "Unexpected token: \"b\"", "unexpected \"b\"", 2, 3);
    assert_diagnostic(&diagnostics[3], "Failed to parse node", "failed", 4, 5);
    assert_diagnostic(&diagnostics[4], "Unexpected token: \"c\"", "unexpected \"c\"", 6, 7);
}

#[test]
fn the_help_names_every_keyword() {
    let help = COMMAND_HELP;
    assert!(help.starts_with("Commands:\n    help (h): Print command help.\n"));
    assert!(help.ends_with("    quit (q): Quit."));
    for keyword in [
        Keyword::Help,
        Keyword::Step,
        Keyword::Continue,
        Keyword::DisplayRegisters,
        Keyword::DisplayBytes,
        Keyword::Evaluate,
        Keyword::ListNearest,
        Keyword::AddBreakpoint,
        Keyword::RemoveBreakpoint,
        Keyword::ListBreakpoint,
        Keyword::Quit,
    ] {
        assert!(help.contains(&format!("    {} (", keyword.as_str())), "{:?}", keyword);
    }
    for alias in [
        Keyword::HelpAlias,
        Keyword::StepAlias,
        Keyword::ContinueAlias,
        Keyword::DisplayRegistersAlias,
        Keyword::DisplayBytesAlias,
        Keyword::EvaluateAlias,
        Keyword::ListNearestAlias,
        Keyword::AddBreakpointAlias,
        Keyword::RemoveBreakpointAlias,
        Keyword::ListBreakpointAlias,
        Keyword::QuitAlias,
    ] {
        assert!(help.contains(&format!(" ({}): ", alias.as_str())), "{:?}", alias);
    }
}
