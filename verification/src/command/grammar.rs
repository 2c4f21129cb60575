//! The grammar of the command language: one command per line, a
//! keyword and, for some commands, an expression.
//!
//! ```text
//! command    := spaces keyword [ expression ] spaces
//! expression := term ( spaces "+" term )*
//! term       := spaces ( number | symbol )
//! number     := digit+ | "0x" hexdigit+
//! symbol     := word "!" word
//! ```
//!
//! The keyword is the longest one that the line starts with. A term reaches
//! up to the next space or `+`; it is a number where it reads as one that
//! fits in 64 bits, and a symbol where its first `!` is neither its first
//! nor its last character. Spaces are the space, the tabulator and
//! the two ends of a line. Places in a line are counted in characters.

use vstd::prelude::*;
use vstd::string::*;

use crate::command::errors::{ErrorView, ParseError, ParseErrorReason, ReasonView};
use crate::text::{chars_of, first_occurrence, string_of};

verus! {

/// An expression of the command language.
pub enum EvalExpr {
    Number(u64),
    Add(Box<EvalExpr>, (), Box<EvalExpr>),
    Symbol(String),
}

/// What an expression holds.
pub enum ExprView {
    Number(u64),
    Add(Box<ExprView>, Box<ExprView>),
    Symbol(Seq<char>),
}

/// What `expr` holds.
pub open spec fn expr_view(expr: EvalExpr) -> ExprView
    decreases expr,
{
    match expr {
        EvalExpr::Number(value) => ExprView::Number(value),
        EvalExpr::Add(left, _, right) => ExprView::Add(
            Box::new(expr_view(*left)),
            Box::new(expr_view(*right)),
        ),
        EvalExpr::Symbol(name) => ExprView::Symbol(name@),
    }
}

impl View for EvalExpr {
    type V = ExprView;

    open spec fn view(&self) -> ExprView {
        expr_view(*self)
    }
}

/// The keywords of the command language: each command has a long name and a
/// short alias.
#[derive(Copy, Clone, Debug, PartialEq, Eq, Structural)]
pub enum Keyword {
    Help,
    HelpAlias,
    Step,
    StepAlias,
    Continue,
    ContinueAlias,
    DisplayRegisters,
    DisplayRegistersAlias,
    DisplayBytes,
    DisplayBytesAlias,
    Evaluate,
    EvaluateAlias,
    ListNearest,
    ListNearestAlias,
    AddBreakpoint,
    AddBreakpointAlias,
    RemoveBreakpoint,
    RemoveBreakpointAlias,
    ListBreakpoint,
    ListBreakpointAlias,
    Quit,
    QuitAlias,
}

/// What a command asks for.
#[derive(Copy, Clone, Debug, PartialEq, Eq, Structural)]
pub enum Action {
    Help,
    Step,
    Continue,
    DisplayRegisters,
    DisplayBytes,
    Evaluate,
    ListNearest,
    AddBreakpoint,
    RemoveBreakpoint,
    ListBreakpoint,
    Quit,
}

impl Keyword {
    /// The keyword as it is written.
    pub open spec fn text(self) -> Seq<char> {
        match self {
            Keyword::Help => "help"@,
            Keyword::HelpAlias => "h"@,
            Keyword::Step => "step"@,
            Keyword::StepAlias => "s"@,
            Keyword::Continue => "continue"@,
            Keyword::ContinueAlias => "c"@,
            Keyword::DisplayRegisters => "registers"@,
            Keyword::DisplayRegistersAlias => "r"@,
            Keyword::DisplayBytes => "display-bytes"@,
            Keyword::DisplayBytesAlias => "db"@,
            Keyword::Evaluate => "eval"@,
            Keyword::EvaluateAlias => "?"@,
            Keyword::ListNearest => "list-nearest"@,
            Keyword::ListNearestAlias => "ln"@,
            Keyword::AddBreakpoint => "add-breakpoint"@,
            Keyword::AddBreakpointAlias => "bp"@,
            Keyword::RemoveBreakpoint => "remove-breakpoint"@,
            Keyword::RemoveBreakpointAlias => "bc"@,
            Keyword::ListBreakpoint => "list-breakpoints"@,
            Keyword::ListBreakpointAlias => "bl"@,
            Keyword::Quit => "quit"@,
            Keyword::QuitAlias => "q"@,
        }
    }

    /// Whether an expression follows the keyword.
    pub open spec fn takes_expression(self) -> bool {
        match self {
            Keyword::DisplayBytes
            | Keyword::DisplayBytesAlias
            | Keyword::Evaluate
            | Keyword::EvaluateAlias
            | Keyword::ListNearest
            | Keyword::ListNearestAlias
            | Keyword::AddBreakpoint
            | Keyword::AddBreakpointAlias
            | Keyword::RemoveBreakpoint
            | Keyword::RemoveBreakpointAlias => true,
            _ => false,
        }
    }

    /// The keyword as it is written.
    pub fn as_str(self) -> (text: &'static str)
        ensures
            text@ == self.text(),
    {
        match self {
            Keyword::Help => "help",
            Keyword::HelpAlias => "h",
            Keyword::Step => "step",
            Keyword::StepAlias => "s",
            Keyword::Continue => "continue",
            Keyword::ContinueAlias => "c",
            Keyword::DisplayRegisters => "registers",
            Keyword::DisplayRegistersAlias => "r",
            Keyword::DisplayBytes => "display-bytes",
            Keyword::DisplayBytesAlias => "db",
            Keyword::Evaluate => "eval",
            Keyword::EvaluateAlias => "?",
            Keyword::ListNearest => "list-nearest",
            Keyword::ListNearestAlias => "ln",
            Keyword::AddBreakpoint => "add-breakpoint",
            Keyword::AddBreakpointAlias => "bp",
            Keyword::RemoveBreakpoint => "remove-breakpoint",
            Keyword::RemoveBreakpointAlias => "bc",
            Keyword::ListBreakpoint => "list-breakpoints",
            Keyword::ListBreakpointAlias => "bl",
            Keyword::Quit => "quit",
            Keyword::QuitAlias => "q",
        }
    }

    /// What the keyword asks for, whichever of its two forms is written.
    pub open spec fn action(self) -> Action {
        match self {
            Keyword::Help | Keyword::HelpAlias => Action::Help,
            Keyword::Step | Keyword::StepAlias => Action::Step,
            Keyword::Continue | Keyword::ContinueAlias => Action::Continue,
            Keyword::DisplayRegisters | Keyword::DisplayRegistersAlias => Action::DisplayRegisters,
            Keyword::DisplayBytes | Keyword::DisplayBytesAlias => Action::DisplayBytes,
            Keyword::Evaluate | Keyword::EvaluateAlias => Action::Evaluate,
            Keyword::ListNearest | Keyword::ListNearestAlias => Action::ListNearest,
            Keyword::AddBreakpoint | Keyword::AddBreakpointAlias => Action::AddBreakpoint,
            Keyword::RemoveBreakpoint | Keyword::RemoveBreakpointAlias => Action::RemoveBreakpoint,
            Keyword::ListBreakpoint | Keyword::ListBreakpointAlias => Action::ListBreakpoint,
            Keyword::Quit | Keyword::QuitAlias => Action::Quit,
        }
    }

    #[verifier::when_used_as_spec(action)]
    pub fn get_action(self) -> (action: Action)
        ensures
            action == self.action(),
    {
        match self {
            Keyword::Help | Keyword::HelpAlias => Action::Help,
            Keyword::Step | Keyword::StepAlias => Action::Step,
            Keyword::Continue | Keyword::ContinueAlias => Action::Continue,
            Keyword::DisplayRegisters | Keyword::DisplayRegistersAlias => Action::DisplayRegisters,
            Keyword::DisplayBytes | Keyword::DisplayBytesAlias => Action::DisplayBytes,
            Keyword::Evaluate | Keyword::EvaluateAlias => Action::Evaluate,
            Keyword::ListNearest | Keyword::ListNearestAlias => Action::ListNearest,
            Keyword::AddBreakpoint | Keyword::AddBreakpointAlias => Action::AddBreakpoint,
            Keyword::RemoveBreakpoint | Keyword::RemoveBreakpointAlias => Action::RemoveBreakpoint,
            Keyword::ListBreakpoint | Keyword::ListBreakpointAlias => Action::ListBreakpoint,
            Keyword::Quit | Keyword::QuitAlias => Action::Quit,
        }
    }

    #[verifier::when_used_as_spec(takes_expression)]
    pub fn has_expression(self) -> (takes: bool)
        ensures
            takes == self.takes_expression(),
    {
        match self {
            Keyword::DisplayBytes
            | Keyword::DisplayBytesAlias
            | Keyword::Evaluate
            | Keyword::EvaluateAlias
            | Keyword::ListNearest
            | Keyword::ListNearestAlias
            | Keyword::AddBreakpoint
            | Keyword::AddBreakpointAlias
            | Keyword::RemoveBreakpoint
            | Keyword::RemoveBreakpointAlias => true,
            _ => false,
        }
    }
}

/// Every keyword, in the order in which a line is tried against them.
pub open spec fn all_keywords() -> Seq<Keyword> {
    seq![
        Keyword::Help,
        Keyword::HelpAlias,
        Keyword::Step,
        Keyword::StepAlias,
        Keyword::Continue,
        Keyword::ContinueAlias,
        Keyword::DisplayRegisters,
        Keyword::DisplayRegistersAlias,
        Keyword::DisplayBytes,
        Keyword::DisplayBytesAlias,
        Keyword::Evaluate,
        Keyword::EvaluateAlias,
        Keyword::ListNearest,
        Keyword::ListNearestAlias,
        Keyword::AddBreakpoint,
        Keyword::AddBreakpointAlias,
        Keyword::RemoveBreakpoint,
        Keyword::RemoveBreakpointAlias,
        Keyword::ListBreakpoint,
        Keyword::ListBreakpointAlias,
        Keyword::Quit,
        Keyword::QuitAlias,
    ]
}

fn keyword_table() -> (table: Vec<Keyword>)
    ensures
        table@ == all_keywords(),
{
    let table = vec![
        Keyword::Help,
        Keyword::HelpAlias,
        Keyword::Step,
        Keyword::StepAlias,
        Keyword::Continue,
        Keyword::ContinueAlias,
        Keyword::DisplayRegisters,
        Keyword::DisplayRegistersAlias,
        Keyword::DisplayBytes,
        Keyword::DisplayBytesAlias,
        Keyword::Evaluate,
        Keyword::EvaluateAlias,
        Keyword::ListNearest,
        Keyword::ListNearestAlias,
        Keyword::AddBreakpoint,
        Keyword::AddBreakpointAlias,
        Keyword::RemoveBreakpoint,
        Keyword::RemoveBreakpointAlias,
        Keyword::ListBreakpoint,
        Keyword::ListBreakpointAlias,
        Keyword::Quit,
        Keyword::QuitAlias,
    ];
    assert(table@ =~= all_keywords());
    table
}

/// A command of the interactive prompt.
pub enum CommandExpr {
    Help(()),
    HelpAlias(()),
    Step(()),
    StepAlias(()),
    Continue(()),
    ContinueAlias(()),
    DisplayRegisters(()),
    DisplayRegistersAlias(()),
    DisplayBytes((), Box<EvalExpr>),
    DisplayBytesAlias((), Box<EvalExpr>),
    Evaluate((), Box<EvalExpr>),
    EvaluateAlias((), Box<EvalExpr>),
    ListNearest((), Box<EvalExpr>),
    ListNearestAlias((), Box<EvalExpr>),
    AddBreakpoint((), Box<EvalExpr>),
    AddBreakpointAlias((), Box<EvalExpr>),
    RemoveBreakpoint((), Box<EvalExpr>),
    RemoveBreakpointAlias((), Box<EvalExpr>),
    ListBreakpoint(()),
    ListBreakpointAlias(()),
    Quit(()),
    QuitAlias(()),
}

/// What a command holds: its keyword, and its expression where it has one.
pub struct CommandView {
    pub keyword: Keyword,
    pub argument: Option<ExprView>,
}

impl View for CommandExpr {
    type V = CommandView;

    open spec fn view(&self) -> CommandView {
        match self {
            CommandExpr::Help(_) => CommandView { keyword: Keyword::Help, argument: None },
            CommandExpr::HelpAlias(_) => CommandView { keyword: Keyword::HelpAlias, argument: None },
            CommandExpr::Step(_) => CommandView { keyword: Keyword::Step, argument: None },
            CommandExpr::StepAlias(_) => CommandView { keyword: Keyword::StepAlias, argument: None },
            CommandExpr::Continue(_) => CommandView { keyword: Keyword::Continue, argument: None },
            CommandExpr::ContinueAlias(_) => CommandView {
                keyword: Keyword::ContinueAlias,
                argument: None,
            },
            CommandExpr::DisplayRegisters(_) => CommandView {
                keyword: Keyword::DisplayRegisters,
                argument: None,
            },
            CommandExpr::DisplayRegistersAlias(_) => CommandView {
                keyword: Keyword::DisplayRegistersAlias,
                argument: None,
            },
            CommandExpr::DisplayBytes(_, expr) => CommandView {
                keyword: Keyword::DisplayBytes,
                argument: Some(expr@),
            },
            CommandExpr::DisplayBytesAlias(_, expr) => CommandView {
                keyword: Keyword::DisplayBytesAlias,
                argument: Some(expr@),
            },
            CommandExpr::Evaluate(_, expr) => CommandView {
                keyword: Keyword::Evaluate,
                argument: Some(expr@),
            },
            CommandExpr::EvaluateAlias(_, expr) => CommandView {
                keyword: Keyword::EvaluateAlias,
                argument: Some(expr@),
            },
            CommandExpr::ListNearest(_, expr) => CommandView {
                keyword: Keyword::ListNearest,
                argument: Some(expr@),
            },
            CommandExpr::ListNearestAlias(_, expr) => CommandView {
                keyword: Keyword::ListNearestAlias,
                argument: Some(expr@),
            },
            CommandExpr::AddBreakpoint(_, expr) => CommandView {
                keyword: Keyword::AddBreakpoint,
                argument: Some(expr@),
            },
            CommandExpr::AddBreakpointAlias(_, expr) => CommandView {
                keyword: Keyword::AddBreakpointAlias,
                argument: Some(expr@),
            },
            CommandExpr::RemoveBreakpoint(_, expr) => CommandView {
                keyword: Keyword::RemoveBreakpoint,
                argument: Some(expr@),
            },
            CommandExpr::RemoveBreakpointAlias(_, expr) => CommandView {
                keyword: Keyword::RemoveBreakpointAlias,
                argument: Some(expr@),
            },
            CommandExpr::ListBreakpoint(_) => CommandView {
                keyword: Keyword::ListBreakpoint,
                argument: None,
            },
            CommandExpr::ListBreakpointAlias(_) => CommandView {
                keyword: Keyword::ListBreakpointAlias,
                argument: None,
            },
            CommandExpr::Quit(_) => CommandView { keyword: Keyword::Quit, argument: None },
            CommandExpr::QuitAlias(_) => CommandView { keyword: Keyword::QuitAlias, argument: None },
        }
    }
}

impl CommandExpr {
    /// The command of `keyword` without an expression.
    pub fn plain(keyword: Keyword) -> (command: CommandExpr)
        requires
            !keyword.takes_expression(),
        ensures
            command@ == (CommandView { keyword, argument: None }),
    {
        match keyword {
            Keyword::Help => CommandExpr::Help(()),
            Keyword::HelpAlias => CommandExpr::HelpAlias(()),
            Keyword::Step => CommandExpr::Step(()),
            Keyword::StepAlias => CommandExpr::StepAlias(()),
            Keyword::Continue => CommandExpr::Continue(()),
            Keyword::ContinueAlias => CommandExpr::ContinueAlias(()),
            Keyword::DisplayRegisters => CommandExpr::DisplayRegisters(()),
            Keyword::DisplayRegistersAlias => CommandExpr::DisplayRegistersAlias(()),
            Keyword::ListBreakpoint => CommandExpr::ListBreakpoint(()),
            Keyword::ListBreakpointAlias => CommandExpr::ListBreakpointAlias(()),
            Keyword::Quit => CommandExpr::Quit(()),
            _ => CommandExpr::QuitAlias(()),
        }
    }

    /// The keyword of the command, and its expression where it has one.
    pub fn into_parts(self) -> (parts: (Keyword, Option<EvalExpr>))
        ensures
            parts.0 == self@.keyword,
            match parts.1 {
                Some(expr) => self@.argument == Some(expr@),
                None => self@.argument is None,
            },
            parts.1 is Some == parts.0.takes_expression(),
    {
        match self {
            CommandExpr::Help(_) => (Keyword::Help, None),
            CommandExpr::HelpAlias(_) => (Keyword::HelpAlias, None),
            CommandExpr::Step(_) => (Keyword::Step, None),
            CommandExpr::StepAlias(_) => (Keyword::StepAlias, None),
            CommandExpr::Continue(_) => (Keyword::Continue, None),
            CommandExpr::ContinueAlias(_) => (Keyword::ContinueAlias, None),
            CommandExpr::DisplayRegisters(_) => (Keyword::DisplayRegisters, None),
            CommandExpr::DisplayRegistersAlias(_) => (Keyword::DisplayRegistersAlias, None),
            CommandExpr::DisplayBytes(_, expr) => (Keyword::DisplayBytes, Some(*expr)),
            CommandExpr::DisplayBytesAlias(_, expr) => (Keyword::DisplayBytesAlias, Some(*expr)),
            CommandExpr::Evaluate(_, expr) => (Keyword::Evaluate, Some(*expr)),
            CommandExpr::EvaluateAlias(_, expr) => (Keyword::EvaluateAlias, Some(*expr)),
            CommandExpr::ListNearest(_, expr) => (Keyword::ListNearest, Some(*expr)),
            CommandExpr::ListNearestAlias(_, expr) => (Keyword::ListNearestAlias, Some(*expr)),
            CommandExpr::AddBreakpoint(_, expr) => (Keyword::AddBreakpoint, Some(*expr)),
            CommandExpr::AddBreakpointAlias(_, expr) => (Keyword::AddBreakpointAlias, Some(*expr)),
            CommandExpr::RemoveBreakpoint(_, expr) => (Keyword::RemoveBreakpoint, Some(*expr)),
            CommandExpr::RemoveBreakpointAlias(_, expr) => (
                Keyword::RemoveBreakpointAlias,
                Some(*expr),
            ),
            CommandExpr::ListBreakpoint(_) => (Keyword::ListBreakpoint, None),
            CommandExpr::ListBreakpointAlias(_) => (Keyword::ListBreakpointAlias, None),
            CommandExpr::Quit(_) => (Keyword::Quit, None),
            CommandExpr::QuitAlias(_) => (Keyword::QuitAlias, None),
        }
    }

    /// The command of `keyword` on `expr`.
    pub fn with_expression(keyword: Keyword, expr: EvalExpr) -> (command: CommandExpr)
        requires
            keyword.takes_expression(),
        ensures
            command@ == (CommandView { keyword, argument: Some(expr@) }),
    {
        let boxed = Box::new(expr);
        match keyword {
            Keyword::DisplayBytes => CommandExpr::DisplayBytes((), boxed),
            Keyword::DisplayBytesAlias => CommandExpr::DisplayBytesAlias((), boxed),
            Keyword::Evaluate => CommandExpr::Evaluate((), boxed),
            Keyword::EvaluateAlias => CommandExpr::EvaluateAlias((), boxed),
            Keyword::ListNearest => CommandExpr::ListNearest((), boxed),
            Keyword::ListNearestAlias => CommandExpr::ListNearestAlias((), boxed),
            Keyword::AddBreakpoint => CommandExpr::AddBreakpoint((), boxed),
            Keyword::AddBreakpointAlias => CommandExpr::AddBreakpointAlias((), boxed),
            Keyword::RemoveBreakpoint => CommandExpr::RemoveBreakpoint((), boxed),
            _ => CommandExpr::RemoveBreakpointAlias((), boxed),
        }
    }
}

/// Whether `c` separates the parts of a line.
pub open spec fn is_space(c: char) -> bool {
    c == ' ' || c == '\t' || c == '\n' || c == '\r'
}

/// The first place at or behind `from` that holds no space.
pub open spec fn skip_spaces(text: Seq<char>, from: int) -> int
    decreases text.len() - from,
{
    if 0 <= from < text.len() && is_space(text[from]) {
        skip_spaces(text, from + 1)
    } else {
        from
    }
}

/// The first place at or behind `from` that holds a space or `+`: where the
/// term that starts at `from` ends.
pub open spec fn word_end(text: Seq<char>, from: int) -> int
    decreases text.len() - from,
{
    if 0 <= from < text.len() && !is_space(text[from]) && text[from] != '+' {
        word_end(text, from + 1)
    } else {
        from
    }
}

/// The first place at or behind `from` that holds a space: where what stands
/// at `from` ends, whatever it is.
pub open spec fn token_end(text: Seq<char>, from: int) -> int
    decreases text.len() - from,
{
    if 0 <= from < text.len() && !is_space(text[from]) {
        token_end(text, from + 1)
    } else {
        from
    }
}

/// A scan ends at or behind its start and within the line, and behind its
/// start where the character there is part of what is scanned.
proof fn lemma_scan_bounds(text: Seq<char>, from: int)
    requires
        0 <= from <= text.len(),
    ensures
        from <= skip_spaces(text, from) <= text.len(),
        from <= word_end(text, from) <= text.len(),
        from <= token_end(text, from) <= text.len(),
        from < text.len() && !is_space(text[from]) && text[from] != '+' ==> from < word_end(
            text,
            from,
        ),
        from < text.len() && !is_space(text[from]) ==> from < token_end(text, from),
    decreases text.len() - from,
{
    if from < text.len() {
        lemma_scan_bounds(text, from + 1);
    }
}

fn space(c: char) -> (yes: bool)
    ensures
        yes == is_space(c),
{
    c == ' ' || c == '\t' || c == '\n' || c == '\r'
}

fn skip_spaces_from(chars: &Vec<char>, from: usize) -> (at: usize)
    requires
        from <= chars.len(),
    ensures
        at == skip_spaces(chars@, from as int),
        from <= at <= chars.len(),
{
    let mut at: usize = from;
    while at < chars.len() && space(chars[at])
        invariant
            from <= at <= chars.len(),
            skip_spaces(chars@, from as int) == skip_spaces(chars@, at as int),
        decreases chars.len() - at,
    {
        at += 1;
    }
    at
}

fn word_end_from(chars: &Vec<char>, from: usize) -> (at: usize)
    requires
        from <= chars.len(),
    ensures
        at == word_end(chars@, from as int),
        from <= at <= chars.len(),
{
    let mut at: usize = from;
    while at < chars.len() && !space(chars[at]) && chars[at] != '+'
        invariant
            from <= at <= chars.len(),
            word_end(chars@, from as int) == word_end(chars@, at as int),
        decreases chars.len() - at,
    {
        at += 1;
    }
    at
}

fn token_end_from(chars: &Vec<char>, from: usize) -> (at: usize)
    requires
        from <= chars.len(),
    ensures
        at == token_end(chars@, from as int),
        from <= at <= chars.len(),
{
    let mut at: usize = from;
    while at < chars.len() && !space(chars[at])
        invariant
            from <= at <= chars.len(),
            token_end(chars@, from as int) == token_end(chars@, at as int),
        decreases chars.len() - at,
    {
        at += 1;
    }
    at
}

/// The value of `c` as a digit: 0 to 9 for a decimal digit, 10 to 15 for a
/// letter `a` to `f` in either case, and -1 for any other character.
pub open spec fn digit_value(c: char) -> int {
    let code = c as u32;
    if 48 <= code <= 57 {
        code - 48
    } else if 97 <= code <= 102 {
        code - 87
    } else if 65 <= code <= 70 {
        code - 55
    } else {
        -1
    }
}

/// Whether every character of `digits` is a digit of the radix.
pub open spec fn all_digits(digits: Seq<char>, radix: int) -> bool {
    forall|i: int| 0 <= i < digits.len() ==> 0 <= digit_value(#[trigger] digits[i]) < radix
}

/// The number that `digits` write in the radix.
pub open spec fn radix_value(digits: Seq<char>, radix: int) -> int
    decreases digits.len(),
{
    if digits.len() == 0 {
        0
    } else {
        radix * radix_value(digits.drop_last(), radix) + digit_value(digits.last())
    }
}

/// The number that `word` writes: in decimal, or in hexadecimal behind `0x`;
/// `None` where `word` is no number.
pub open spec fn literal_value(word: Seq<char>) -> Option<int> {
    if word.len() > 0 && all_digits(word, 10) {
        Some(radix_value(word, 10))
    } else if word.len() > 2 && word[0] == '0' && word[1] == 'x' && all_digits(word.skip(2), 16) {
        Some(radix_value(word.skip(2), 16))
    } else {
        None
    }
}

/// The 64-bit number that `word` writes; `None` where `word` is no number or
/// writes one that does not fit.
pub open spec fn number_of(word: Seq<char>) -> Option<u64> {
    match literal_value(word) {
        Some(value) => if value <= u64::MAX {
            Some(value as u64)
        } else {
            None
        },
        None => None,
    }
}

/// The number that the first digits write is no larger than the number that
/// all of them write.
proof fn lemma_radix_value_grows(digits: Seq<char>, radix: int, count: int)
    requires
        1 <= radix,
        all_digits(digits, radix),
        0 <= count <= digits.len(),
    ensures
        0 <= radix_value(digits.take(count), radix) <= radix_value(digits, radix),
    decreases digits.len() - count,
{
    if count < digits.len() {
        lemma_radix_value_grows(digits, radix, count + 1);
        let longer = digits.take(count + 1);
        assert(longer.drop_last() =~= digits.take(count));
        assert(longer.last() == digits[count]);
        let low = radix_value(digits.take(count), radix);
        lemma_radix_value_nonnegative(digits.take(count), radix);
        assert(low <= radix * low + digit_value(digits[count])) by (nonlinear_arith)
            requires
                radix >= 1,
                low >= 0,
                digit_value(digits[count]) >= 0,
        ;
    } else {
        assert(digits.take(count) =~= digits);
        lemma_radix_value_nonnegative(digits, radix);
    }
}

proof fn lemma_radix_value_nonnegative(digits: Seq<char>, radix: int)
    requires
        1 <= radix,
        all_digits(digits, radix),
    ensures
        0 <= radix_value(digits, radix),
    decreases digits.len(),
{
    if digits.len() > 0 {
        let head = digits.drop_last();
        assert(all_digits(head, radix)) by {
            assert forall|i: int| 0 <= i < head.len() implies 0 <= digit_value(#[trigger] head[i])
                < radix by {
                assert(head[i] == digits[i]);
            }
        }
        lemma_radix_value_nonnegative(head, radix);
        assert(0 <= radix * radix_value(head, radix)) by (nonlinear_arith)
            requires
                radix >= 1,
                radix_value(head, radix) >= 0,
        ;
        assert(digits.last() == digits[digits.len() - 1]);
    }
}

fn digit_of(c: char) -> (value: Option<u64>)
    ensures
        match value {
            Some(v) => v == digit_value(c) && v < 16,
            None => digit_value(c) == -1,
        },
{
    let code: u32 = c as u32;
    if 48 <= code && code <= 57 {
        Some((code - 48) as u64)
    } else if 97 <= code && code <= 102 {
        Some((code - 87) as u64)
    } else if 65 <= code && code <= 70 {
        Some((code - 55) as u64)
    } else {
        None
    }
}

/// What `chars[from..to]` say as digits of the radix.
enum Digits {
    /// Some character is no digit of the radix.
    Invalid,
    /// The number does not fit in 64 bits.
    TooLarge,
    Value(u64),
}

fn read_digits(chars: &Vec<char>, from: usize, to: usize, radix: u64) -> (read: Digits)
    requires
        from <= to <= chars.len(),
        radix == 10 || radix == 16,
    ensures
        match read {
            Digits::Invalid => !all_digits(chars@.subrange(from as int, to as int), radix as int),
            Digits::TooLarge => all_digits(chars@.subrange(from as int, to as int), radix as int)
                && radix_value(chars@.subrange(from as int, to as int), radix as int) > u64::MAX,
            Digits::Value(value) => all_digits(
                chars@.subrange(from as int, to as int),
                radix as int,
            ) && radix_value(chars@.subrange(from as int, to as int), radix as int) == value,
        },
{
    let ghost digits = chars@.subrange(from as int, to as int);
    // First make sure that every character is a digit, then add them up.
    let mut i: usize = from;
    while i < to
        invariant
            from <= i <= to <= chars.len(),
            digits == chars@.subrange(from as int, to as int),
            forall|k: int| 0 <= k < i - from ==> 0 <= digit_value(#[trigger] digits[k]) < radix,
        decreases to - i,
    {
        assert(digits[i - from] == chars@[i as int]);
        match digit_of(chars[i]) {
            Some(d) => {
                if d >= radix {
                    return Digits::Invalid;
                }
            },
            None => {
                return Digits::Invalid;
            },
        }
        i += 1;
    }
    assert(all_digits(digits, radix as int));
    let mut value: u64 = 0;
    let mut i: usize = from;
    assert(digits.take(0) =~= Seq::<char>::empty());
    while i < to
        invariant
            from <= i <= to <= chars.len(),
            radix == 10 || radix == 16,
            digits == chars@.subrange(from as int, to as int),
            all_digits(digits, radix as int),
            value == radix_value(digits.take(i - from), radix as int),
        decreases to - i,
    {
        assert(digits[i - from] == chars@[i as int]);
        let d = match digit_of(chars[i]) {
            Some(d) => d,
            None => { return Digits::Invalid; },
        };
        proof {
            let longer = digits.take(i - from + 1);
            assert(longer.drop_last() =~= digits.take(i - from));
            assert(longer.last() == digits[i - from]);
            lemma_radix_value_grows(digits, radix as int, i - from + 1);
        }
        let scaled = match value.checked_mul(radix) {
            Some(scaled) => scaled,
            None => { return Digits::TooLarge; },
        };
        value = match scaled.checked_add(d) {
            Some(sum) => sum,
            None => { return Digits::TooLarge; },
        };
        i += 1;
    }
    assert(digits.take(to - from) =~= digits);
    Digits::Value(value)
}

/// What the word `chars[from..to]` says as a number.
fn read_number(chars: &Vec<char>, from: usize, to: usize) -> (read: Digits)
    requires
        from <= to <= chars.len(),
    ensures
        match read {
            Digits::Invalid => literal_value(chars@.subrange(from as int, to as int)) is None,
            Digits::TooLarge => literal_value(chars@.subrange(from as int, to as int)) matches Some(
                value,
            ) && value > u64::MAX,
            Digits::Value(value) => literal_value(chars@.subrange(from as int, to as int)) == Some(
                value as int,
            ),
        },
{
    let ghost word = chars@.subrange(from as int, to as int);
    if to == from {
        return Digits::Invalid;
    }
    match read_digits(chars, from, to, 10) {
        Digits::Invalid => {},
        other => { return other; },
    }
    if to - from > 2 && chars[from] == '0' && chars[from + 1] == 'x' {
        assert(word[0] == chars@[from as int] && word[1] == chars@[from + 1]);
        assert(word.skip(2) =~= chars@.subrange(from + 2, to as int));
        read_digits(chars, from + 2, to, 16)
    } else {
        assert(word.len() > 2 ==> word[0] == chars@[from as int] && word[1] == chars@[from + 1]);
        Digits::Invalid
    }
}

/// The number that `text` writes, in decimal or in hexadecimal behind `0x`;
/// `None` where `text` is no number or the number does not fit in 64 bits.
pub fn parse_int(text: &str) -> (value: Option<u64>)
    ensures
        value == number_of(text@),
{
    let chars = chars_of(text);
    assert(chars@.subrange(0, chars.len() as int) =~= text@);
    match read_number(&chars, 0, chars.len()) {
        Digits::Value(value) => Some(value),
        _ => None,
    }
}

/// Whether `word` stands in `text` at `at`.
pub open spec fn starts_with_at(text: Seq<char>, at: int, word: Seq<char>) -> bool {
    0 <= at && at + word.len() <= text.len() && text.subrange(at, at + word.len()) == word
}

/// Whether the keyword number `k` is the one that stands in `text` at `at`:
/// the longest keyword that does, and of those of its length the first.
pub open spec fn is_keyword_at(text: Seq<char>, at: int, k: int) -> bool {
    &&& 0 <= k < all_keywords().len()
    &&& starts_with_at(text, at, all_keywords()[k].text())
    &&& forall|j: int|
        0 <= j < all_keywords().len() && starts_with_at(text, at, (#[trigger] all_keywords()[j]).text())
            ==> all_keywords()[j].text().len() < all_keywords()[k].text().len() || (
        all_keywords()[j].text().len() == all_keywords()[k].text().len() && k <= j)
}

/// The keyword that stands in `text` at `at`.
pub open spec fn keyword_at(text: Seq<char>, at: int) -> Option<Keyword> {
    if exists|k: int| is_keyword_at(text, at, k) {
        Some(all_keywords()[choose|k: int| is_keyword_at(text, at, k)])
    } else {
        None
    }
}

/// Whether `word` is a symbol: a module and a function with `!` between them.
pub open spec fn is_symbol(word: Seq<char>) -> bool {
    first_occurrence(word, '!') matches Some(at) && 0 < at < word.len() - 1
}

/// The text `expression`, which names what is missing where a term should
/// stand.
pub open spec fn expression_token() -> Seq<char> {
    "expression"@
}

/// The text `command`, which names what is missing in an empty line.
pub open spec fn command_token() -> Seq<char> {
    "command"@
}

/// The term that stands at or behind `from`, and where it ends.
pub open spec fn term_at(text: Seq<char>, from: int) -> Result<(ExprView, int), ErrorView> {
    let start = skip_spaces(text, from);
    let end = word_end(text, start);
    let word = text.subrange(start, end);
    if end <= start {
        Err(ErrorView { reason: ReasonView::MissingToken(expression_token()), start, end: start })
    } else {
        match literal_value(word) {
            Some(value) => if value <= u64::MAX {
                Ok((ExprView::Number(value as u64), end))
            } else {
                Err(ErrorView { reason: ReasonView::FailedNode(Seq::empty()), start, end })
            },
            None => if is_symbol(word) {
                Ok((ExprView::Symbol(word), end))
            } else {
                Err(ErrorView { reason: ReasonView::UnexpectedToken(word), start, end })
            },
        }
    }
}

/// The sum that starts with `left` and goes on at `from` with `+` and a term
/// as often as they follow, taken from left to right; and where it ends.
pub open spec fn sum_from(text: Seq<char>, left: ExprView, from: int) -> Result<
    (ExprView, int),
    ErrorView,
>
    decreases text.len() - from,
    when 0 <= from <= text.len()
    via sum_from_decreases
{
    let plus = skip_spaces(text, from);
    if plus < text.len() && text[plus] == '+' {
        match term_at(text, plus + 1) {
            Ok((right, next)) => sum_from(
                text,
                ExprView::Add(Box::new(left), Box::new(right)),
                next,
            ),
            Err(error) => Err(error),
        }
    } else {
        Ok((left, from))
    }
}

#[via_fn]
proof fn sum_from_decreases(text: Seq<char>, left: ExprView, from: int) {
    let plus = skip_spaces(text, from);
    lemma_scan_bounds(text, from);
    if plus < text.len() && text[plus] == '+' {
        lemma_term_bounds(text, plus + 1);
    }
}

/// A term ends behind its start and within the line; so does the range of
/// the failure to read one.
proof fn lemma_term_bounds(text: Seq<char>, from: int)
    requires
        0 <= from <= text.len(),
    ensures
        term_at(text, from) matches Ok((_, next)) ==> from < next <= text.len(),
        term_at(text, from) matches Err(error) ==> from <= error.start <= error.end <= text.len(),
{
    lemma_scan_bounds(text, from);
    lemma_scan_bounds(text, skip_spaces(text, from));
}

/// The expression that stands at or behind `from`, and where it ends.
pub open spec fn expression_at(text: Seq<char>, from: int) -> Result<(ExprView, int), ErrorView> {
    match term_at(text, from) {
        Ok((first, next)) => sum_from(text, first, next),
        Err(error) => Err(error),
    }
}

/// What stands behind a complete command, where anything but spaces does.
pub open spec fn trailing(text: Seq<char>, from: int) -> Option<ErrorView> {
    let rest = skip_spaces(text, from);
    if rest >= text.len() {
        None
    } else {
        Some(
            ErrorView {
                reason: ReasonView::UnexpectedToken(text.subrange(rest, token_end(text, rest))),
                start: rest,
                end: token_end(text, rest),
            },
        )
    }
}

/// The command that the line `text` writes, or why it writes none.
///
/// A line without a keyword at its start is reported with the token that
/// stands there, an empty line with the missing command. A failure inside
/// the expression is reported as a failed node that holds it and reaches from
/// the end of the keyword to the end of the line. Anything behind a complete
/// command is reported as an unexpected token.
pub open spec fn command_of(text: Seq<char>) -> Result<CommandView, ErrorView> {
    let start = skip_spaces(text, 0);
    match keyword_at(text, start) {
        None => if start >= text.len() {
            Err(ErrorView { reason: ReasonView::MissingToken(command_token()), start, end: start })
        } else {
            Err(
                ErrorView {
                    reason: ReasonView::UnexpectedToken(
                        text.subrange(start, token_end(text, start)),
                    ),
                    start,
                    end: token_end(text, start),
                },
            )
        },
        Some(keyword) => {
            let after = start + keyword.text().len();
            if keyword.takes_expression() {
                match expression_at(text, after) {
                    Ok((expr, next)) => match trailing(text, next) {
                        None => Ok(CommandView { keyword, argument: Some(expr) }),
                        Some(error) => Err(error),
                    },
                    Err(inner) => Err(
                        ErrorView {
                            reason: ReasonView::FailedNode(seq![inner]),
                            start: after,
                            end: text.len() as int,
                        },
                    ),
                }
            } else {
                match trailing(text, after) {
                    None => Ok(CommandView { keyword, argument: None }),
                    Some(error) => Err(error),
                }
            }
        },
    }
}

/// Whether the range of `error`, and the ranges of the failures that it
/// holds, lie in a line of `length` characters.
pub open spec fn in_line(error: ErrorView, length: int) -> bool {
    &&& 0 <= error.start <= error.end <= length
    &&& error.reason matches ReasonView::FailedNode(inner) ==> forall|i: int|
        0 <= i < inner.len() ==> 0 <= (#[trigger] inner[i]).start <= inner[i].end <= length
}

proof fn lemma_sum_bounds(text: Seq<char>, left: ExprView, from: int)
    requires
        0 <= from <= text.len(),
    ensures
        sum_from(text, left, from) matches Ok((_, next)) ==> from <= next <= text.len(),
        sum_from(text, left, from) matches Err(error) ==> from <= error.start <= error.end
            <= text.len(),
    decreases text.len() - from,
{
    let plus = skip_spaces(text, from);
    lemma_scan_bounds(text, from);
    if plus < text.len() && text[plus] == '+' {
        lemma_term_bounds(text, plus + 1);
        if let Ok((right, next)) = term_at(text, plus + 1) {
            lemma_sum_bounds(text, ExprView::Add(Box::new(left), Box::new(right)), next);
        }
    }
}

/// A line that is no command is reported with ranges that lie in the line.
pub proof fn lemma_failure_in_line(text: Seq<char>)
    ensures
        command_of(text) matches Err(error) ==> in_line(error, text.len() as int),
{
    let start = skip_spaces(text, 0);
    lemma_scan_bounds(text, 0);
    lemma_scan_bounds(text, start);
    if let Some(keyword) = keyword_at(text, start) {
        let k = choose|k: int| is_keyword_at(text, start, k);
        let after = start + keyword.text().len();
        lemma_term_bounds(text, after);
        if keyword.takes_expression() {
            match term_at(text, after) {
                Ok((first, next)) => {
                    lemma_sum_bounds(text, first, next);
                    if let Ok((_, end)) = sum_from(text, first, next) {
                        lemma_scan_bounds(text, end);
                        lemma_scan_bounds(text, skip_spaces(text, end));
                    }
                },
                Err(_) => {},
            }
        } else {
            lemma_scan_bounds(text, after);
            lemma_scan_bounds(text, skip_spaces(text, after));
        }
    }
}

/// Whether `word` stands in `chars` at `at`.
fn stands_at(chars: &Vec<char>, at: usize, word: &Vec<char>) -> (yes: bool)
    requires
        at <= chars.len(),
    ensures
        yes == starts_with_at(chars@, at as int, word@),
{
    if word.len() > chars.len() - at {
        return false;
    }
    let mut i: usize = 0;
    while i < word.len()
        invariant
            i <= word.len(),
            at + word.len() <= chars.len(),
            forall|k: int| 0 <= k < i ==> chars@[at + k] == word@[k],
        decreases word.len() - i,
    {
        if chars[at + i] != word[i] {
            assert(chars@.subrange(at as int, at + word.len())[i as int] != word@[i as int]);
            return false;
        }
        i += 1;
    }
    assert(chars@.subrange(at as int, at + word.len()) =~= word@);
    true
}

/// The keyword that stands in `chars` at `at`, with its length.
fn find_keyword(chars: &Vec<char>, at: usize) -> (found: Option<(Keyword, usize)>)
    requires
        at <= chars.len(),
    ensures
        match found {
            Some((keyword, length)) => keyword_at(chars@, at as int) == Some(keyword) && length
                == keyword.text().len() && at + length <= chars.len(),
            None => keyword_at(chars@, at as int) is None,
        },
{
    let table = keyword_table();
    let mut best: Option<usize> = None;
    let mut best_len: usize = 0;
    let mut k: usize = 0;
    while k < table.len()
        invariant
            k <= table.len(),
            at <= chars.len(),
            table@ == all_keywords(),
            match best {
                Some(b) => {
                    &&& b < k
                    &&& best_len == table@[b as int].text().len()
                    &&& starts_with_at(chars@, at as int, table@[b as int].text())
                    &&& forall|j: int|
                        0 <= j < k && starts_with_at(chars@, at as int, (#[trigger] table@[j]).text())
                            ==> table@[j].text().len() < best_len || (table@[j].text().len()
                            == best_len && b <= j)
                },
                None => forall|j: int|
                    0 <= j < k ==> !starts_with_at(chars@, at as int, (#[trigger] table@[j]).text()),
            },
        decreases table.len() - k,
    {
        let word = chars_of(table[k].as_str());
        if stands_at(chars, at, &word) && (best.is_none() || word.len() > best_len) {
            best = Some(k);
            best_len = word.len();
        }
        k += 1;
    }
    match best {
        Some(b) => {
            assert(is_keyword_at(chars@, at as int, b as int));
            proof {
                let chosen = choose|k: int| is_keyword_at(chars@, at as int, k);
                assert(is_keyword_at(chars@, at as int, chosen));
                assert(chosen == b);
            }
            Some((table[b], best_len))
        },
        None => None,
    }
}

fn failure(reason: ParseErrorReason, start: usize, end: usize) -> (error: ParseError)
    ensures
        error.reason == reason,
        error.start == start,
        error.end == end,
{
    ParseError { reason, start, end }
}

/// Whether the word `chars[from..to]` is a symbol.
fn names_symbol(chars: &Vec<char>, from: usize, to: usize) -> (yes: bool)
    requires
        from <= to <= chars.len(),
    ensures
        yes == is_symbol(chars@.subrange(from as int, to as int)),
{
    let ghost word = chars@.subrange(from as int, to as int);
    let mut at: usize = from;
    while at < to && chars[at] != '!'
        invariant
            from <= at <= to <= chars.len(),
            word == chars@.subrange(from as int, to as int),
            forall|j: int| 0 <= j < at - from ==> word[j] != '!',
        decreases to - at,
    {
        assert(word[at - from] == chars@[at as int]);
        at += 1;
    }
    if at < to {
        assert(word[at - from] == chars@[at as int]);
        assert(crate::text::is_first_occurrence(word, '!', at - from));
        from < at && at < to - 1
    } else {
        false
    }
}

/// The term that stands at or behind `from`, and where it ends.
fn parse_term(chars: &Vec<char>, from: usize) -> (term: Result<(EvalExpr, usize), ParseError>)
    requires
        from <= chars.len(),
    ensures
        match term {
            Ok((expr, next)) => term_at(chars@, from as int) == Ok::<(ExprView, int), ErrorView>(
                (expr@, next as int),
            ) && from < next <= chars.len(),
            Err(error) => term_at(chars@, from as int) == Err::<(ExprView, int), ErrorView>(error@),
        },
{
    let start = skip_spaces_from(chars, from);
    let end = word_end_from(chars, start);
    proof {
        lemma_term_bounds(chars@, from as int);
    }
    if end <= start {
        return Err(
            failure(ParseErrorReason::MissingToken(String::from_str("expression")), start, start),
        );
    }
    match read_number(chars, start, end) {
        Digits::Value(value) => Ok((EvalExpr::Number(value), end)),
        Digits::TooLarge => {
            let inner: Vec<ParseError> = Vec::new();
            let error = failure(ParseErrorReason::FailedNode(inner), start, end);
            assert(error@.reason == ReasonView::FailedNode(Seq::empty()));
            Err(error)
        },
        Digits::Invalid => {
            let word = string_of(chars, start, end);
            if names_symbol(chars, start, end) {
                Ok((EvalExpr::Symbol(word), end))
            } else {
                Err(failure(ParseErrorReason::UnexpectedToken(word), start, end))
            }
        },
    }
}

/// The expression that stands at or behind `from`, and where it ends.
fn parse_expression(chars: &Vec<char>, from: usize) -> (parsed: Result<
    (EvalExpr, usize),
    ParseError,
>)
    requires
        from <= chars.len(),
    ensures
        match parsed {
            Ok((expr, next)) => expression_at(chars@, from as int) == Ok::<
                (ExprView, int),
                ErrorView,
            >((expr@, next as int)) && next <= chars.len(),
            Err(error) => expression_at(chars@, from as int) == Err::<(ExprView, int), ErrorView>(
                error@,
            ),
        },
{
    let (first, first_end) = match parse_term(chars, from) {
        Ok(term) => term,
        Err(error) => { return Err(error); },
    };
    let mut left = first;
    let mut at: usize = first_end;
    loop
        invariant
            at <= chars.len(),
            expression_at(chars@, from as int) == sum_from(chars@, left@, at as int),
        decreases chars.len() - at,
    {
        let plus = skip_spaces_from(chars, at);
        if plus < chars.len() && chars[plus] == '+' {
            match parse_term(chars, plus + 1) {
                Ok((right, next)) => {
                    left = EvalExpr::Add(Box::new(left), (), Box::new(right));
                    at = next;
                },
                Err(error) => { return Err(error); },
            }
        } else {
            return Ok((left, at));
        }
    }
}

/// What stands behind a complete command, where anything but spaces does.
fn check_trailing(chars: &Vec<char>, from: usize) -> (found: Option<ParseError>)
    requires
        from <= chars.len(),
    ensures
        match found {
            Some(error) => trailing(chars@, from as int) == Some(error@),
            None => trailing(chars@, from as int) is None,
        },
{
    let rest = skip_spaces_from(chars, from);
    if rest >= chars.len() {
        None
    } else {
        let end = token_end_from(chars, rest);
        Some(failure(ParseErrorReason::UnexpectedToken(string_of(chars, rest, end)), rest, end))
    }
}

/// Reads one line as a command. A line that is no command gives the one
/// failure that says why, with the range of characters that it is about; the
/// range lies in the line.
pub fn parse(input: &str) -> (parsed: Result<CommandExpr, Vec<ParseError>>)
    ensures
        match parsed {
            Ok(command) => command_of(input@) == Ok::<CommandView, ErrorView>(command@),
            Err(errors) => errors@.len() == 1 && command_of(input@) == Err::<
                CommandView,
                ErrorView,
            >(errors@[0]@) && in_line(errors@[0]@, input@.len() as int),
        },
{
    proof {
        lemma_failure_in_line(input@);
    }
    let chars = chars_of(input);
    let start = skip_spaces_from(&chars, 0);
    let failed = match find_keyword(&chars, start) {
        None => {
            if start >= chars.len() {
                failure(ParseErrorReason::MissingToken(String::from_str("command")), start, start)
            } else {
                let end = token_end_from(&chars, start);
                failure(
                    ParseErrorReason::UnexpectedToken(string_of(&chars, start, end)),
                    start,
                    end,
                )
            }
        },
        Some((keyword, length)) => {
            let after = start + length;
            if keyword.has_expression() {
                match parse_expression(&chars, after) {
                    Ok((expr, next)) => match check_trailing(&chars, next) {
                        None => { return Ok(CommandExpr::with_expression(keyword, expr)); },
                        Some(error) => error,
                    },
                    Err(inner) => {
                        let ghost inside = inner@;
                        let mut nested: Vec<ParseError> = Vec::new();
                        nested.push(inner);
                        let error = failure(ParseErrorReason::FailedNode(nested), after, chars.len());
                        proof {
                            crate::command::errors::lemma_errors_view(nested@, 1);
                            assert(crate::command::errors::errors_view(nested@, 1) =~= seq![inside]);
                        }
                        error
                    },
                }
            } else {
                match check_trailing(&chars, after) {
                    None => { return Ok(CommandExpr::plain(keyword)); },
                    Some(error) => error,
                }
            }
        },
    };
    let mut errors: Vec<ParseError> = Vec::new();
    errors.push(failed);
    Err(errors)
}

} // verus!
