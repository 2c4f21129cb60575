//! How a command is written, and that a command that is written so is read
//! back as it was.

use vstd::prelude::*;

use crate::command::errors::ErrorView;
use crate::command::grammar::{
    all_digits, all_keywords, command_of, digit_value, expression_at, is_keyword_at, is_space,
    is_symbol, keyword_at, literal_value, radix_value, skip_spaces, starts_with_at, sum_from,
    term_at, trailing, word_end, CommandView, ExprView, Keyword,
};
use crate::text::{digits, is_first_occurrence, spec_digit_char};

verus! {

/// The length and the first two characters of a keyword; a keyword of one
/// character has a space for the second.
pub open spec fn keyword_print(keyword: Keyword) -> (int, char, char) {
    match keyword {
        Keyword::Help => (4, 'h', 'e'),
        Keyword::HelpAlias => (1, 'h', ' '),
        Keyword::Step => (4, 's', 't'),
        Keyword::StepAlias => (1, 's', ' '),
        Keyword::Continue => (8, 'c', 'o'),
        Keyword::ContinueAlias => (1, 'c', ' '),
        Keyword::DisplayRegisters => (9, 'r', 'e'),
        Keyword::DisplayRegistersAlias => (1, 'r', ' '),
        Keyword::DisplayBytes => (13, 'd', 'i'),
        Keyword::DisplayBytesAlias => (2, 'd', 'b'),
        Keyword::Evaluate => (4, 'e', 'v'),
        Keyword::EvaluateAlias => (1, '?', ' '),
        Keyword::ListNearest => (12, 'l', 'i'),
        Keyword::ListNearestAlias => (2, 'l', 'n'),
        Keyword::AddBreakpoint => (14, 'a', 'd'),
        Keyword::AddBreakpointAlias => (2, 'b', 'p'),
        Keyword::RemoveBreakpoint => (17, 'r', 'e'),
        Keyword::RemoveBreakpointAlias => (2, 'b', 'c'),
        Keyword::ListBreakpoint => (16, 'l', 'i'),
        Keyword::ListBreakpointAlias => (2, 'b', 'l'),
        Keyword::Quit => (4, 'q', 'u'),
        Keyword::QuitAlias => (1, 'q', ' '),
    }
}

/// The length and the first two characters of a text.
pub open spec fn print_of(text: Seq<char>) -> (int, char, char) {
    (
        text.len() as int,
        text[0],
        if text.len() > 1 {
            text[1]
        } else {
            ' '
        },
    )
}

/// Whether no character of `text` is a space.
pub open spec fn has_no_space(text: Seq<char>) -> bool {
    forall|i: int| 0 <= i < text.len() ==> !is_space(#[trigger] text[i])
}

proof fn lemma_short_keywords(keyword: Keyword)
    requires
        keyword_print(keyword).0 <= 4,
    ensures
        print_of(keyword.text()) == keyword_print(keyword),
        has_no_space(keyword.text()),
{
    reveal_strlit("help");
    reveal_strlit("h");
    reveal_strlit("step");
    reveal_strlit("s");
    reveal_strlit("c");
    reveal_strlit("r");
    reveal_strlit("db");
    reveal_strlit("eval");
    reveal_strlit("?");
    reveal_strlit("ln");
    reveal_strlit("bp");
    reveal_strlit("bc");
    reveal_strlit("bl");
    reveal_strlit("quit");
    reveal_strlit("q");
    let text = keyword.text();
    assert forall|i: int| 0 <= i < text.len() implies !is_space(#[trigger] text[i]) by {
        assert(i == 0 || i == 1 || i == 2 || i == 3);
    }
}

proof fn lemma_long_keywords(keyword: Keyword)
    requires
        keyword_print(keyword).0 > 4,
    ensures
        print_of(keyword.text()) == keyword_print(keyword),
        has_no_space(keyword.text()),
{
    reveal_strlit("continue");
    reveal_strlit("registers");
    reveal_strlit("display-bytes");
    reveal_strlit("list-nearest");
    reveal_strlit("add-breakpoint");
    reveal_strlit("remove-breakpoint");
    reveal_strlit("list-breakpoints");
    let text = keyword.text();
    assert forall|i: int| 0 <= i < text.len() implies !is_space(#[trigger] text[i]) by {
        assert(i == 0 || i == 1 || i == 2 || i == 3 || i == 4 || i == 5 || i == 6 || i == 7 || i == 8
            || i == 9 || i == 10 || i == 11 || i == 12 || i == 13 || i == 14 || i == 15 || i == 16);
    }
}

/// No keyword holds a space, and no two keywords are written alike.
pub proof fn lemma_keywords_differ(a: Keyword, b: Keyword)
    ensures
        a.text().len() > 0,
        has_no_space(a.text()),
        a.text() == b.text() ==> a == b,
{
    if keyword_print(a).0 <= 4 {
        lemma_short_keywords(a);
    } else {
        lemma_long_keywords(a);
    }
    if keyword_print(b).0 <= 4 {
        lemma_short_keywords(b);
    } else {
        lemma_long_keywords(b);
    }
}

/// The place of a keyword among all keywords.
pub open spec fn keyword_index(keyword: Keyword) -> int {
    match keyword {
        Keyword::Help => 0,
        Keyword::HelpAlias => 1,
        Keyword::Step => 2,
        Keyword::StepAlias => 3,
        Keyword::Continue => 4,
        Keyword::ContinueAlias => 5,
        Keyword::DisplayRegisters => 6,
        Keyword::DisplayRegistersAlias => 7,
        Keyword::DisplayBytes => 8,
        Keyword::DisplayBytesAlias => 9,
        Keyword::Evaluate => 10,
        Keyword::EvaluateAlias => 11,
        Keyword::ListNearest => 12,
        Keyword::ListNearestAlias => 13,
        Keyword::AddBreakpoint => 14,
        Keyword::AddBreakpointAlias => 15,
        Keyword::RemoveBreakpoint => 16,
        Keyword::RemoveBreakpointAlias => 17,
        Keyword::ListBreakpoint => 18,
        Keyword::ListBreakpointAlias => 19,
        Keyword::Quit => 20,
        Keyword::QuitAlias => 21,
    }
}

/// A keyword that stands in a line, with a space or the end of the line
/// behind it, is the keyword that is read there.
pub proof fn lemma_keyword_is_read(text: Seq<char>, at: int, keyword: Keyword)
    requires
        starts_with_at(text, at, keyword.text()),
        at + keyword.text().len() == text.len() || is_space(text[at + keyword.text().len()]),
    ensures
        keyword_at(text, at) == Some(keyword),
{
    let table = all_keywords();
    let place = keyword_index(keyword);
    assert(table[place] == keyword);
    assert forall|j: int|
        0 <= j < table.len() && starts_with_at(text, at, (#[trigger] table[j]).text()) implies (
    table[j].text().len() < keyword.text().len() || (table[j].text().len() == keyword.text().len()
        && place <= j)) by {
        let other = table[j];
        lemma_keywords_differ(other, keyword);
        let length = keyword.text().len() as int;
        if other.text().len() > length {
            assert(text.subrange(at, at + other.text().len())[length] == text[at + length]);
            assert(is_space(other.text()[length]));
        } else if other.text().len() == length {
            assert(other.text() == keyword.text());
            assert(keyword_index(other) == j);
        }
    }
    assert(is_keyword_at(text, at, place));
    let chosen = choose|k: int| is_keyword_at(text, at, k);
    assert(is_keyword_at(text, at, chosen));
    assert(table[chosen].text().len() == keyword.text().len());
    assert(chosen == place);
}

/// Whether `word` can stand as a term: it holds a character, and none that
/// is a space or `+`.
pub open spec fn is_word(word: Seq<char>) -> bool {
    &&& word.len() > 0
    &&& forall|i: int| 0 <= i < word.len() ==> !is_space(#[trigger] word[i]) && word[i] != '+'
}

/// Whether `expr` is a term: a number, or a symbol that can stand as one.
pub open spec fn is_term(expr: ExprView) -> bool {
    match expr {
        ExprView::Number(_) => true,
        ExprView::Symbol(name) => is_word(name) && is_symbol(name),
        ExprView::Add(_, _) => false,
    }
}

/// A term as it is written: a number in decimal, a symbol by its name.
pub open spec fn written_term(term: ExprView) -> Seq<char> {
    match term {
        ExprView::Number(value) => digits(value as nat, 10, false),
        ExprView::Symbol(name) => name,
        ExprView::Add(_, _) => Seq::empty(),
    }
}

/// The terms from place `from` on as they are written behind the start of a
/// sum: each with ` + ` before it.
pub open spec fn written_terms(terms: Seq<ExprView>, from: int) -> Seq<char>
    decreases terms.len() - from,
{
    if 0 <= from < terms.len() {
        seq![' ', '+', ' '] + written_term(terms[from]) + written_terms(terms, from + 1)
    } else {
        Seq::empty()
    }
}

/// The sum of `left` and the terms from place `from` on, folded from the
/// left.
pub open spec fn folded(left: ExprView, terms: Seq<ExprView>, from: int) -> ExprView
    decreases terms.len() - from,
{
    if 0 <= from < terms.len() {
        folded(ExprView::Add(Box::new(left), Box::new(terms[from])), terms, from + 1)
    } else {
        left
    }
}

/// A command as it is written: the keyword, and behind a space the first
/// term and the further terms of its expression.
pub open spec fn written_command(keyword: Keyword, first: ExprView, rest: Seq<ExprView>) -> Seq<
    char,
> {
    keyword.text() + seq![' '] + written_term(first) + written_terms(rest, 0)
}

/// A number that is written in decimal is written in digits and is read
/// back as itself.
pub proof fn lemma_decimal_reads_back(value: nat)
    ensures
        digits(value, 10, false).len() > 0,
        all_digits(digits(value, 10, false), 10),
        radix_value(digits(value, 10, false), 10) == value,
    decreases value,
{
    let word = digits(value, 10, false);
    if value < 10 {
        assert(word =~= seq![spec_digit_char(value as int, false)]);
        assert(word.drop_last() =~= Seq::<char>::empty());
        assert(digit_value(word[0]) == value);
        assert(radix_value(word.drop_last(), 10) == 0);
    } else {
        lemma_decimal_reads_back(value / 10);
        let head = digits(value / 10, 10, false);
        let last = spec_digit_char((value % 10) as int, false);
        assert(word == head.push(last));
        assert(word.drop_last() =~= head);
        assert(digit_value(last) == value % 10);
        assert forall|i: int| 0 <= i < word.len() implies 0 <= digit_value(#[trigger] word[i])
            < 10 by {
            if i < head.len() {
                assert(word[i] == head[i]);
            }
        }
    }
}

/// A term that is written is a word, and the word is read as the term.
proof fn lemma_written_term(term: ExprView)
    requires
        is_term(term),
    ensures
        is_word(written_term(term)),
        match term {
            ExprView::Number(value) => literal_value(written_term(term)) == Some(value as int),
            _ => literal_value(written_term(term)) is None && is_symbol(written_term(term)),
        },
{
    let word = written_term(term);
    match term {
        ExprView::Number(value) => {
            lemma_decimal_reads_back(value as nat);
            assert forall|i: int| 0 <= i < word.len() implies !is_space(#[trigger] word[i])
                && word[i] != '+' by {
                assert(0 <= digit_value(word[i]) < 10);
            }
        },
        ExprView::Symbol(name) => {
            let at = choose|at: int| is_first_occurrence(name, '!', at);
            assert(is_first_occurrence(name, '!', at));
            assert(digit_value(name[at]) == -1);
            if name.len() > 2 && name[0] == '0' && name[1] == 'x' {
                assert(at >= 2);
                assert(name.skip(2)[at - 2] == name[at]);
            }
        },
        ExprView::Add(_, _) => {},
    }
}

/// A run of characters that are no spaces and no `+`, with the end of the
/// line, a space or `+` behind it, is scanned as one word.
proof fn lemma_word_is_scanned(text: Seq<char>, from: int, length: int)
    requires
        0 <= from,
        0 <= length,
        from + length <= text.len(),
        forall|i: int| from <= i < from + length ==> !is_space(#[trigger] text[i]) && text[i] != '+',
        from + length == text.len() || is_space(text[from + length]) || text[from + length] == '+',
    ensures
        word_end(text, from) == from + length,
    decreases length,
{
    if length > 0 {
        assert(!is_space(text[from]) && text[from] != '+');
        lemma_word_is_scanned(text, from + 1, length - 1);
    }
}

/// A term that is written behind one space, with the end of the line or a
/// space behind it, is read as it was.
proof fn lemma_term_is_read(text: Seq<char>, at: int, term: ExprView)
    requires
        is_term(term),
        0 <= at < text.len(),
        text[at] == ' ',
        starts_with_at(text, at + 1, written_term(term)),
        at + 1 + written_term(term).len() == text.len() || text[at + 1 + written_term(term).len()]
            == ' ',
    ensures
        term_at(text, at) == Ok::<(ExprView, int), ErrorView>(
            (term, at + 1 + written_term(term).len()),
        ),
{
    let word = written_term(term);
    lemma_written_term(term);
    let start = at + 1;
    let end = start + word.len();
    assert forall|i: int| start <= i < end implies !is_space(#[trigger] text[i]) && text[i]
        != '+' by {
        assert(text.subrange(start, end)[i - start] == text[i]);
        assert(!is_space(word[i - start]) && word[i - start] != '+');
    }
    assert(!is_space(text[start]));
    assert(skip_spaces(text, start) == start);
    assert(skip_spaces(text, at) == start);
    lemma_word_is_scanned(text, start, word.len() as int);
    assert(text.subrange(start, end) == word);
}

/// The further terms of a sum that are written up to the end of the line
/// are read and folded from the left.
proof fn lemma_terms_are_read(text: Seq<char>, at: int, left: ExprView, terms: Seq<ExprView>, from: int)
    requires
        0 <= from <= terms.len(),
        0 <= at <= text.len(),
        forall|i: int| 0 <= i < terms.len() ==> is_term(#[trigger] terms[i]),
        text.skip(at) == written_terms(terms, from),
    ensures
        sum_from(text, left, at) == Ok::<(ExprView, int), ErrorView>(
            (folded(left, terms, from), text.len() as int),
        ),
    decreases terms.len() - from,
{
    if from < terms.len() {
        let term = terms[from];
        let word = written_term(term);
        let rest = written_terms(terms, from + 1);
        let written = seq![' ', '+', ' '] + word + rest;
        assert(text.skip(at) == written);
        assert(text.len() - at == 3 + word.len() + rest.len());
        assert(text[at] == written[0] && text[at + 1] == written[1] && text[at + 2] == written[2]);
        assert(skip_spaces(text, at + 1) == at + 1);
        assert(skip_spaces(text, at) == at + 1);
        let end = at + 3 + word.len();
        assert(text.subrange(at + 3, end) =~= word) by {
            assert forall|i: int| 0 <= i < word.len() implies text[at + 3 + i] == word[i] by {
                assert(text[at + 3 + i] == written[3 + i]);
            }
        }
        assert(text.skip(end) =~= rest) by {
            assert forall|i: int| 0 <= i < rest.len() implies text[end + i] == rest[i] by {
                assert(text[end + i] == written[3 + word.len() + i]);
            }
        }
        if end < text.len() {
            assert(from + 1 < terms.len());
            assert(text[end] == rest[0]);
        }
        lemma_term_is_read(text, at + 2, term);
        lemma_terms_are_read(
            text,
            end,
            ExprView::Add(Box::new(left), Box::new(term)),
            terms,
            from + 1,
        );
    } else {
        assert(text.skip(at).len() == 0);
        assert(skip_spaces(text, at) == at);
    }
}

/// A command without an expression that is written as its keyword is read
/// back as that command.
pub proof fn lemma_plain_command_is_read_back(keyword: Keyword)
    requires
        !keyword.takes_expression(),
    ensures
        command_of(keyword.text()) == Ok::<CommandView, ErrorView>(
            CommandView { keyword, argument: None },
        ),
{
    let text = keyword.text();
    lemma_keywords_differ(keyword, keyword);
    assert(!is_space(text[0]));
    assert(skip_spaces(text, 0) == 0);
    assert(text.subrange(0, text.len() as int) =~= text);
    lemma_keyword_is_read(text, 0, keyword);
    assert(skip_spaces(text, text.len() as int) == text.len());
}

/// A command that is written as its keyword, a space, and the terms of its
/// expression with ` + ` between them, is read back as that command, with
/// the terms folded from the left.
pub proof fn lemma_written_command_is_read_back(
    keyword: Keyword,
    first: ExprView,
    rest: Seq<ExprView>,
)
    requires
        keyword.takes_expression(),
        is_term(first),
        forall|i: int| 0 <= i < rest.len() ==> is_term(#[trigger] rest[i]),
    ensures
        command_of(written_command(keyword, first, rest)) == Ok::<CommandView, ErrorView>(
            CommandView { keyword, argument: Some(folded(first, rest, 0)) },
        ),
{
    let text = written_command(keyword, first, rest);
    let name = keyword.text();
    let word = written_term(first);
    let tail = written_terms(rest, 0);
    lemma_keywords_differ(keyword, keyword);
    lemma_written_term(first);
    let after = name.len() as int;
    let end = after + 1 + word.len();
    assert(text.len() == end + tail.len());
    assert(text[0] == name[0]);
    assert(!is_space(text[0]));
    assert(skip_spaces(text, 0) == 0);
    assert(text.subrange(0, after) =~= name);
    assert(text[after] == ' ');
    lemma_keyword_is_read(text, 0, keyword);
    assert(text.subrange(after + 1, end) =~= word);
    assert(text.skip(end) =~= tail);
    if end < text.len() {
        assert(0 < rest.len());
        assert(text[end] == tail[0]);
    }
    lemma_term_is_read(text, after, first);
    lemma_terms_are_read(text, end, first, rest, 0);
    assert(expression_at(text, after) == Ok::<(ExprView, int), ErrorView>(
        (folded(first, rest, 0), text.len() as int),
    ));
    assert(skip_spaces(text, text.len() as int) == text.len());
    assert(trailing(text, text.len() as int) is None);
}

} // verus!
