//! What the parser reports of a line that is no command.

use vstd::prelude::*;

verus! {

/// Why a line could not be read.
pub enum ParseErrorReason {
    /// A token stands where none of its kind can.
    UnexpectedToken(String),
    /// A part of the line could not be read; the failures inside it, where
    /// any are known.
    FailedNode(Vec<ParseError>),
    /// A token is missing.
    MissingToken(String),
}

/// A failure to read a line, with the range of characters that it is about.
pub struct ParseError {
    pub reason: ParseErrorReason,
    /// First character of the range.
    pub start: usize,
    /// One behind the last character of the range.
    pub end: usize,
}

/// What a reason holds.
pub enum ReasonView {
    UnexpectedToken(Seq<char>),
    FailedNode(Seq<ErrorView>),
    MissingToken(Seq<char>),
}

/// What a failure holds.
pub struct ErrorView {
    pub reason: ReasonView,
    pub start: int,
    pub end: int,
}

/// What `error` holds.
pub open spec fn error_view(error: ParseError) -> ErrorView
    decreases error,
{
    ErrorView {
        reason: match error.reason {
            ParseErrorReason::UnexpectedToken(token) => ReasonView::UnexpectedToken(token@),
            ParseErrorReason::FailedNode(errors) => ReasonView::FailedNode(
                errors_view(errors@, errors@.len()),
            ),
            ParseErrorReason::MissingToken(token) => ReasonView::MissingToken(token@),
        },
        start: error.start as int,
        end: error.end as int,
    }
}

/// What the first `count` errors of `errors` hold.
pub open spec fn errors_view(errors: Seq<ParseError>, count: nat) -> Seq<ErrorView>
    decreases errors, count,
{
    if count == 0 || count > errors.len() {
        Seq::empty()
    } else {
        errors_view(errors, (count - 1) as nat).push(error_view(errors[count - 1]))
    }
}

impl View for ParseError {
    type V = ErrorView;

    open spec fn view(&self) -> ErrorView {
        error_view(*self)
    }
}

/// The views of the first `count` errors stand at their places.
pub proof fn lemma_errors_view(errors: Seq<ParseError>, count: nat)
    requires
        count <= errors.len(),
    ensures
        errors_view(errors, count).len() == count,
        forall|i: int| 0 <= i < count ==> errors_view(errors, count)[i] == error_view(errors[i]),
    decreases count,
{
    if count > 0 {
        lemma_errors_view(errors, (count - 1) as nat);
    }
}

} // verus!
