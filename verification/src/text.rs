//! Text helpers shared by the other modules: comparing and slicing strings by
//! character, and writing numbers in decimal and hexadecimal.

use vstd::prelude::*;
use vstd::string::*;

verus! {

/// `String::push`: appends one character to the end of the string.
pub assume_specification[ String::push ](text: &mut String, ch: char)
    ensures
        final(text)@ == old(text)@.push(ch),
;

/// The lowercase form of a text, as `str::to_lowercase` defines it.
pub uninterp spec fn lowercase(text: Seq<char>) -> Seq<char>;

/// `str::to_lowercase`: the lowercase equivalent of the text as a new string.
/// The contract gives the result a name and claims nothing else of it.
#[verifier::external_body]
pub(crate) fn to_lowercase(text: &str) -> (lowered: String)
    ensures
        lowered@ == lowercase(text@),
{
    text.to_lowercase()
}

/// Whether two texts hold the same characters.
pub fn str_eq(a: &str, b: &str) -> (same: bool)
    ensures
        same == (a@ == b@),
{
    a.to_owned() == b.to_owned()
}

/// The characters of a text, in order.
pub fn chars_of(text: &str) -> (chars: Vec<char>)
    ensures
        chars@ == text@,
{
    let mut chars: Vec<char> = Vec::new();
    for c in it: text.chars()
        invariant
            chars@ == it.seq().take(it.index()),
    {
        chars.push(c);
    }
    chars
}

/// The string that holds `chars[from..to]`.
pub fn string_of(chars: &Vec<char>, from: usize, to: usize) -> (text: String)
    requires
        from <= to <= chars.len(),
    ensures
        text@ == chars@.subrange(from as int, to as int),
{
    let mut text = String::new();
    let mut i: usize = from;
    while i < to
        invariant
            from <= i <= to <= chars.len(),
            text@ == chars@.subrange(from as int, i as int),
        decreases to - i,
    {
        text.push(chars[i]);
        i += 1;
    }
    text
}

/// A character in UTF-16: one unit for a character of the basic plane, else
/// a high and a low surrogate that share the 20 bits above 0x10000.
pub open spec fn utf16_of_char(c: char) -> Seq<u16> {
    let code = c as u32;
    if code < 0x1_0000 {
        seq![code as u16]
    } else {
        seq![
            (0xD800 + (code - 0x1_0000) / 0x400) as u16,
            (0xDC00 + (code - 0x1_0000) % 0x400) as u16,
        ]
    }
}

/// A text in UTF-16, unit by unit.
pub open spec fn utf16_of(text: Seq<char>) -> Seq<u16>
    decreases text.len(),
{
    if text.len() == 0 {
        Seq::empty()
    } else {
        utf16_of(text.drop_last()) + utf16_of_char(text.last())
    }
}

/// Converts a text into a null-terminated wide (u16) encoded string, as the
/// interfaces of the operating system take it.
pub fn convert_string_to_u16(input: &str) -> (buffer: Vec<u16>)
    ensures
        buffer@ == utf16_of(input@).push(0u16),
{
    let chars = chars_of(input);
    let mut buffer: Vec<u16> = Vec::new();
    let mut i: usize = 0;
    assert(chars@.take(0) =~= Seq::<char>::empty());
    while i < chars.len()
        invariant
            i <= chars.len(),
            buffer@ == utf16_of(chars@.take(i as int)),
        decreases chars.len() - i,
    {
        let code: u32 = chars[i] as u32;
        proof {
            let next = chars@.take(i + 1);
            assert(next.drop_last() =~= chars@.take(i as int));
            assert(next.last() == chars@[i as int]);
        }
        let ghost before = buffer@;
        if code < 0x1_0000 {
            buffer.push(code as u16);
            assert(buffer@ =~= before + utf16_of_char(chars@[i as int]));
        } else {
            let rest: u32 = code - 0x1_0000;
            buffer.push((0xD800 + rest / 0x400) as u16);
            buffer.push((0xDC00 + rest % 0x400) as u16);
            assert(buffer@ =~= before + utf16_of_char(chars@[i as int]));
        }
        i += 1;
    }
    assert(chars@.take(i as int) =~= chars@);
    // Add the null terminator.
    buffer.push(0);
    buffer
}

/// Whether `at` is the first place of `ch` in `text`.
pub open spec fn is_first_occurrence(text: Seq<char>, ch: char, at: int) -> bool {
    &&& 0 <= at < text.len()
    &&& text[at] == ch
    &&& forall|j: int| 0 <= j < at ==> text[j] != ch
}

/// The first place of `ch` in `text`.
pub open spec fn first_occurrence(text: Seq<char>, ch: char) -> Option<int> {
    if exists|at: int| is_first_occurrence(text, ch, at) {
        Some(choose|at: int| is_first_occurrence(text, ch, at))
    } else {
        None
    }
}

/// The first place of `ch` in `chars`.
pub fn find_char(chars: &Vec<char>, ch: char) -> (found: Option<usize>)
    ensures
        match found {
            Some(at) => first_occurrence(chars@, ch) == Some(at as int),
            None => first_occurrence(chars@, ch) is None,
        },
{
    let mut i: usize = 0;
    while i < chars.len()
        invariant
            i <= chars.len(),
            forall|j: int| 0 <= j < i ==> chars@[j] != ch,
        decreases chars.len() - i,
    {
        if chars[i] == ch {
            assert(is_first_occurrence(chars@, ch, i as int));
            return Some(i);
        }
        i += 1;
    }
    None
}

/// Where the last path component of `path` starts: just behind its last
/// backslash, or at 0 where it has none.
pub open spec fn component_start(path: Seq<char>) -> int
    decreases path.len(),
{
    if path.len() == 0 {
        0
    } else if path.last() == '\\' {
        path.len() as int
    } else {
        component_start(path.drop_last())
    }
}

/// The last component of a backslash-separated path: what follows its last
/// backslash, the whole path where it has none.
pub open spec fn last_component(path: Seq<char>) -> Seq<char> {
    path.skip(component_start(path))
}

/// The last component of a backslash-separated path.
pub fn last_path_component(path: &str) -> (component: String)
    ensures
        component@ == last_component(path@),
{
    let chars = chars_of(path);
    let mut start: usize = chars.len();
    assert(chars@.take(start as int) =~= chars@);
    while start > 0 && chars[start - 1] != '\\'
        invariant
            start <= chars.len(),
            component_start(chars@) == component_start(chars@.take(start as int)),
        decreases start,
    {
        proof {
            let head = chars@.take(start as int);
            assert(head.drop_last() == chars@.take(start as int - 1));
        }
        start -= 1;
    }
    proof {
        let head = chars@.take(start as int);
        if start > 0 {
            assert(head.last() == '\\');
        }
        assert(component_start(head) == start);
    }
    string_of(&chars, start, chars.len())
}

/// The digit `d` of a number written in base 16 or less.
pub open spec fn spec_digit_char(d: int, upper: bool) -> char {
    if d == 0 { '0' }
    else if d == 1 { '1' }
    else if d == 2 { '2' }
    else if d == 3 { '3' }
    else if d == 4 { '4' }
    else if d == 5 { '5' }
    else if d == 6 { '6' }
    else if d == 7 { '7' }
    else if d == 8 { '8' }
    else if d == 9 { '9' }
    else if d == 10 { if upper { 'A' } else { 'a' } }
    else if d == 11 { if upper { 'B' } else { 'b' } }
    else if d == 12 { if upper { 'C' } else { 'c' } }
    else if d == 13 { if upper { 'D' } else { 'd' } }
    else if d == 14 { if upper { 'E' } else { 'e' } }
    else { if upper { 'F' } else { 'f' } }
}

/// `value` written in `base` without leading zeros; zero is one digit.
pub open spec fn digits(value: nat, base: nat, upper: bool) -> Seq<char>
    recommends
        2 <= base <= 16,
    decreases value,
    when 2 <= base
    via digits_decreases
{
    if value < base {
        seq![spec_digit_char(value as int, upper)]
    } else {
        digits(value / base, base, upper).push(spec_digit_char((value % base) as int, upper))
    }
}

#[via_fn]
proof fn digits_decreases(value: nat, base: nat, upper: bool) {
    if value >= base {
        assert(value / base < value) by (nonlinear_arith)
            requires
                value >= base,
                base >= 2,
        ;
    }
}

/// `text` filled up on the left with `fill` to `width` characters.
pub open spec fn padded(text: Seq<char>, width: nat, fill: char) -> Seq<char> {
    if text.len() >= width {
        text
    } else {
        Seq::new((width - text.len()) as nat, |i: int| fill) + text
    }
}

/// The digit `d` of a number written in base 16 or less.
pub fn digit_char(d: u64, upper: bool) -> (c: char)
    requires
        d < 16,
    ensures
        c == spec_digit_char(d as int, upper),
{
    if d == 0 { '0' }
    else if d == 1 { '1' }
    else if d == 2 { '2' }
    else if d == 3 { '3' }
    else if d == 4 { '4' }
    else if d == 5 { '5' }
    else if d == 6 { '6' }
    else if d == 7 { '7' }
    else if d == 8 { '8' }
    else if d == 9 { '9' }
    else if d == 10 { if upper { 'A' } else { 'a' } }
    else if d == 11 { if upper { 'B' } else { 'b' } }
    else if d == 12 { if upper { 'C' } else { 'c' } }
    else if d == 13 { if upper { 'D' } else { 'd' } }
    else if d == 14 { if upper { 'E' } else { 'e' } }
    else { if upper { 'F' } else { 'f' } }
}

/// Appends `value`, written in `base` and filled up on the left with `fill`
/// to `width` characters, to `out`.
pub fn push_number(out: &mut String, value: u64, base: u64, upper: bool, width: usize, fill: char)
    requires
        2 <= base <= 16,
    ensures
        final(out)@ == old(out)@ + padded(digits(value as nat, base as nat, upper), width as nat, fill),
{
    // Least significant digit first.
    let mut reversed: Vec<char> = Vec::new();
    let mut rest: u64 = value;
    while rest >= base
        invariant
            2 <= base <= 16,
            digits(value as nat, base as nat, upper) == digits(rest as nat, base as nat, upper)
                + reversed@.reverse(),
        decreases rest,
    {
        let ghost before = reversed@;
        reversed.push(digit_char(rest % base, upper));
        proof {
            let d = spec_digit_char((rest % base) as int, upper);
            assert(reversed@.reverse() =~= seq![d] + before.reverse());
            assert(digits(rest as nat, base as nat, upper) == digits(
                (rest / base) as nat,
                base as nat,
                upper,
            ).push(d));
            assert(digits((rest / base) as nat, base as nat, upper).push(d) + before.reverse()
                =~= digits((rest / base) as nat, base as nat, upper) + (seq![d]
                + before.reverse()));
        }
        rest = rest / base;
    }
    let ghost before = reversed@;
    reversed.push(digit_char(rest, upper));
    proof {
        let d = spec_digit_char(rest as int, upper);
        assert(reversed@.reverse() =~= seq![d] + before.reverse());
        assert(digits(rest as nat, base as nat, upper) =~= seq![d]);
        assert(digits(value as nat, base as nat, upper) =~= reversed@.reverse());
    }
    let ghost text = digits(value as nat, base as nat, upper);
    let ghost start = old(out)@;
    let mut filled: usize = reversed.len();
    while filled < width
        invariant
            reversed.len() <= filled,
            filled <= width || filled == reversed.len(),
            out@ == start + Seq::new((filled - reversed.len()) as nat, |i: int| fill),
        decreases width - filled,
    {
        let ghost prev = Seq::new((filled - reversed.len()) as nat, |i: int| fill);
        out.push(fill);
        filled += 1;
        assert(Seq::new((filled - reversed.len()) as nat, |i: int| fill) =~= prev.push(fill));
        assert(start + prev.push(fill) =~= (start + prev).push(fill));
    }
    let ghost pad = Seq::new((filled - reversed.len()) as nat, |i: int| fill);
    let mut left: usize = reversed.len();
    while left > 0
        invariant
            left <= reversed.len(),
            text == reversed@.reverse(),
            out@ == start + pad + text.take(reversed.len() - left),
        decreases left,
    {
        left -= 1;
        out.push(reversed[left]);
        proof {
            let k = reversed.len() - left - 1;
            assert(text[k] == reversed@[left as int]);
            assert(text.take(k + 1) =~= text.take(k).push(text[k]));
            assert(start + pad + text.take(k + 1) =~= (start + pad + text.take(k)).push(text[k]));
        }
    }
    proof {
        assert(text.take(reversed.len() as int) =~= text);
        assert(start + pad + text =~= start + (pad + text));
        if text.len() >= width {
            assert(pad =~= Seq::<char>::empty());
            assert(pad + text =~= text);
        }
    }
}

} // verus!
