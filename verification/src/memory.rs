//! Reading the target's memory: the one primitive that a memory source
//! provides, and the typed, array and string readers built on it.
//!
//! A read may come back short. What a reader makes of the bytes it got is a
//! function of those bytes, stated exactly (`decode_array`, `string_from_bytes`,
//! `string_from_words`); the readers that call the source say what holds
//! whatever the source returned.

use vstd::prelude::*;
use vstd::slice::slice_subrange;
use vstd::utf8::{
    decode_utf8, encode_utf8, encode_utf8_decode_utf8, encode_utf8_valid_utf8, is_ascii_chars,
    is_ascii_chars_encode_utf8, valid_utf8,
};

verus! {

/// Access to the memory of a target: a live process, a dump, a test image.
pub trait MemorySource {
    /// Whether a read of `len` bytes at `address` can give `bytes`. A source
    /// that says nothing of itself can give anything, and a source may give
    /// one thing now and another later. The readers say by it which reads
    /// they made and what they made of each.
    open spec fn gives(&self, address: u64, len: usize, bytes: Seq<u8>) -> bool {
        true
    }

    /// Reads up to `len` bytes at `address` and stops at the first failure:
    /// the result is the prefix that could be read, possibly empty.
    fn read_raw_memory(&self, address: u64, len: usize) -> (bytes: Vec<u8>)
        ensures
            bytes@.len() <= len,
            self.gives(address, len, bytes@),
    ;
}

/// The 16-bit little-endian number at `bytes[at..at + 2]`.
pub open spec fn le_u16(bytes: Seq<u8>, at: int) -> int {
    bytes[at] + 0x100 * bytes[at + 1]
}

/// The 32-bit little-endian number at `bytes[at..at + 4]`.
pub open spec fn le_u32(bytes: Seq<u8>, at: int) -> int {
    le_u16(bytes, at) + 0x1_0000 * le_u16(bytes, at + 2)
}

/// The 64-bit little-endian number at `bytes[at..at + 8]`.
pub open spec fn le_u64(bytes: Seq<u8>, at: int) -> int {
    le_u32(bytes, at) + 0x1_0000_0000 * le_u32(bytes, at + 4)
}

/// The 16-bit little-endian number at `bytes[at..at + 2]`.
pub fn get_u16(bytes: &[u8], at: usize) -> (value: u16)
    requires
        at + 2 <= bytes.len(),
    ensures
        value == le_u16(bytes@, at as int),
{
    let low: u16 = bytes[at] as u16;
    let high: u16 = bytes[at + 1] as u16;
    low + 0x100 * high
}

/// The 32-bit little-endian number at `bytes[at..at + 4]`.
pub fn get_u32(bytes: &[u8], at: usize) -> (value: u32)
    requires
        at + 4 <= bytes.len(),
    ensures
        value == le_u32(bytes@, at as int),
{
    let low: u32 = get_u16(bytes, at) as u32;
    let high: u32 = get_u16(bytes, at + 2) as u32;
    low + 0x1_0000 * high
}

/// The 64-bit little-endian number at `bytes[at..at + 8]`.
pub fn get_u64(bytes: &[u8], at: usize) -> (value: u64)
    requires
        at + 8 <= bytes.len(),
    ensures
        value == le_u64(bytes@, at as int),
{
    let low: u64 = get_u32(bytes, at) as u64;
    let high: u64 = get_u32(bytes, at + 4) as u64;
    low + 0x1_0000_0000 * high
}

/// A value with a fixed little-endian layout in the target's memory.
pub trait MemoryValue: Sized {
    /// Number of bytes that one value takes.
    spec fn spec_size() -> nat;

    /// The value that `bytes` hold, for `bytes` of that length.
    spec fn decode(bytes: Seq<u8>) -> Self;

    fn size() -> (n: usize)
        ensures
            n == Self::spec_size(),
            n > 0,
    ;

    fn from_bytes(bytes: &[u8]) -> (value: Self)
        requires
            bytes@.len() == Self::spec_size(),
        ensures
            value == Self::decode(bytes@),
    ;
}

impl MemoryValue for u8 {
    open spec fn spec_size() -> nat {
        1
    }

    open spec fn decode(bytes: Seq<u8>) -> u8 {
        bytes[0]
    }

    fn size() -> (n: usize) {
        1
    }

    fn from_bytes(bytes: &[u8]) -> (value: u8) {
        bytes[0]
    }
}

impl MemoryValue for u16 {
    open spec fn spec_size() -> nat {
        2
    }

    open spec fn decode(bytes: Seq<u8>) -> u16 {
        le_u16(bytes, 0) as u16
    }

    fn size() -> (n: usize) {
        2
    }

    fn from_bytes(bytes: &[u8]) -> (value: u16) {
        get_u16(bytes, 0)
    }
}

impl MemoryValue for u32 {
    open spec fn spec_size() -> nat {
        4
    }

    open spec fn decode(bytes: Seq<u8>) -> u32 {
        le_u32(bytes, 0) as u32
    }

    fn size() -> (n: usize) {
        4
    }

    fn from_bytes(bytes: &[u8]) -> (value: u32) {
        get_u32(bytes, 0)
    }
}

impl MemoryValue for u64 {
    open spec fn spec_size() -> nat {
        8
    }

    open spec fn decode(bytes: Seq<u8>) -> u64 {
        le_u64(bytes, 0) as u64
    }

    fn size() -> (n: usize) {
        8
    }

    fn from_bytes(bytes: &[u8]) -> (value: u64) {
        get_u64(bytes, 0)
    }
}

/// The items that `bytes` hold one after the other; a rest shorter than one
/// item is dropped.
pub open spec fn decoded_items<T: MemoryValue>(bytes: Seq<u8>) -> Seq<T> {
    Seq::new(
        (bytes.len() / T::spec_size()) as nat,
        |i: int| T::decode(bytes.subrange(i * T::spec_size(), (i + 1) * T::spec_size())),
    )
}

/// Decodes the items that `bytes` hold one after the other.
pub fn decode_array<T: MemoryValue>(bytes: &[u8]) -> (items: Vec<T>)
    ensures
        items@ == decoded_items::<T>(bytes@),
{
    let element_size = T::size();
    let mut items: Vec<T> = Vec::new();
    let mut offset: usize = 0;
    let ghost size = T::spec_size() as int;
    assert(0 * size == 0);
    while element_size <= bytes.len() - offset
        invariant
            element_size == size,
            size == T::spec_size(),
            size > 0,
            offset <= bytes.len(),
            offset == items@.len() * size,
            forall|i: int|
                0 <= i < items@.len() ==> #[trigger] items@[i] == T::decode(
                    bytes@.subrange(i * size, (i + 1) * size),
                ),
        decreases bytes.len() - offset,
    {
        let ghost count = items@.len() as int;
        assert((count + 1) * size == offset + size) by (nonlinear_arith)
            requires
                offset == count * size,
        ;
        let item = T::from_bytes(slice_subrange(bytes, offset, offset + element_size));
        items.push(item);
        offset += element_size;
    }
    proof {
        let count = items@.len() as int;
        let total = bytes@.len() as int;
        assert(count == total / size) by (nonlinear_arith)
            requires
                size > 0,
                count * size <= total,
                total - count * size < size,
                count >= 0,
        ;
        assert(items@ =~= decoded_items::<T>(bytes@));
    }
    items
}

/// The text `Could not read all items`: the failure of a read that came
/// back short.
pub open spec fn short_read() -> Seq<char> {
    "Could not read all items"@
}

/// Whether `items` are what a read of up to `max_count` items at `address`
/// makes of what the source gave: one read of the bytes of `max_count`
/// items, and of the bytes that came the whole items, in their order.
pub open spec fn array_read<T: MemoryValue, M: MemorySource + ?Sized>(
    source: &M,
    address: u64,
    max_count: usize,
    items: Seq<T>,
) -> bool {
    exists|bytes: Seq<u8>|
        #[trigger] source.gives(address, (max_count * T::spec_size()) as usize, bytes)
            && bytes.len() <= max_count * T::spec_size() && items == decoded_items::<T>(bytes)
}

/// Whether `outcome` is what a read of exactly `count` items at `address`
/// makes of what the source gave: the items where all of them came, and
/// `None` where fewer came.
pub open spec fn full_array_read<T: MemoryValue, M: MemorySource + ?Sized>(
    source: &M,
    address: u64,
    count: usize,
    outcome: Option<Seq<T>>,
) -> bool {
    exists|items: Seq<T>|
        #[trigger] array_read(source, address, count, items) && outcome == if items.len()
            == count {
            Some(items)
        } else {
            None
        }
}

/// Whether `outcome` is what a read of one item at `address` makes of what
/// the source gave: one read of the bytes of an item, the item that they
/// hold where all of them came, and `None` where fewer came.
pub open spec fn data_read<T: MemoryValue, M: MemorySource + ?Sized>(
    source: &M,
    address: u64,
    outcome: Option<T>,
) -> bool {
    exists|bytes: Seq<u8>|
        #[trigger] source.gives(address, T::spec_size() as usize, bytes) && bytes.len()
            <= T::spec_size() && outcome == if bytes.len() == T::spec_size() {
            Some(T::decode(bytes))
        } else {
            None
        }
}

/// Whether `text` is what a read of a string of at most `max_count` units at
/// `address` makes of what the source gave: the units that came, up to the
/// first zero, decoded with U+FFFD for what is invalid. Bytes that are valid
/// UTF-8 are decoded as they stand.
pub open spec fn string_read<M: MemorySource + ?Sized>(
    source: &M,
    address: u64,
    max_count: usize,
    is_wide: bool,
    text: Seq<char>,
) -> bool {
    if is_wide {
        exists|words: Seq<u16>|
            #[trigger] array_read(source, address, max_count, words) && text == utf16_lossy(
                until_zero(words, 0u16),
            )
    } else {
        exists|bytes: Seq<u8>|
            #[trigger] array_read(source, address, max_count, bytes) && text == utf8_lossy(
                until_zero(bytes, 0u8),
            ) && (valid_utf8(until_zero(bytes, 0u8)) ==> text == decode_utf8(
                until_zero(bytes, 0u8),
            ))
    }
}

/// Reads up to `max_count` items at `address` from a source of any kind.
pub(crate) fn array_from<T: MemoryValue, M: MemorySource + ?Sized>(
    source: &M,
    address: u64,
    max_count: usize,
) -> (items: Vec<T>)
    requires
        max_count * T::spec_size() <= usize::MAX,
    ensures
        items@.len() <= max_count,
        array_read(source, address, max_count, items@),
{
    let element_size = T::size();
    assert(max_count * element_size <= usize::MAX);
    let max_bytes = max_count * element_size;
    let raw_bytes = source.read_raw_memory(address, max_bytes);
    let items = decode_array::<T>(raw_bytes.as_slice());
    proof {
        let len = raw_bytes@.len() as int;
        let size = element_size as int;
        assert(len / size <= max_count) by (nonlinear_arith)
            requires
                len <= max_count * size,
                size > 0,
        ;
        assert(source.gives(address, (max_count * T::spec_size()) as usize, raw_bytes@));
    }
    items
}

/// Reads exactly `count` items at `address` from a source of any kind.
pub(crate) fn full_array_from<T: MemoryValue, M: MemorySource + ?Sized>(
    source: &M,
    address: u64,
    count: usize,
) -> (result: Result<Vec<T>, &'static str>)
    requires
        count * T::spec_size() <= usize::MAX,
    ensures
        match result {
            Ok(items) => items@.len() == count && full_array_read(
                source,
                address,
                count,
                Some(items@),
            ),
            Err(message) => message@ == short_read() && full_array_read::<T, M>(
                source,
                address,
                count,
                None,
            ),
        },
{
    let items = array_from::<T, M>(source, address, count);
    assert(array_read(source, address, count, items@));
    if items.len() != count {
        Err("Could not read all items")
    } else {
        Ok(items)
    }
}

/// Reads one item at `address` from a source of any kind.
pub(crate) fn data_from<T: MemoryValue, M: MemorySource + ?Sized>(source: &M, address: u64) -> (result:
    Result<T, &'static str>)
    ensures
        match result {
            Ok(value) => data_read(source, address, Some(value)),
            Err(message) => message@ == short_read() && data_read::<T, M>(source, address, None),
        },
{
    let raw_bytes = source.read_raw_memory(address, T::size());
    assert(source.gives(address, T::spec_size() as usize, raw_bytes@));
    if raw_bytes.len() == T::size() {
        Ok(T::from_bytes(raw_bytes.as_slice()))
    } else {
        Err("Could not read all items")
    }
}

/// Reads up to `max_count` items at `address`: as many whole items as the
/// source returned bytes for.
pub fn read_memory_array<T: MemoryValue>(
    source: &dyn MemorySource,
    address: u64,
    max_count: usize,
) -> (items: Vec<T>)
    requires
        max_count * T::spec_size() <= usize::MAX,
    ensures
        items@.len() <= max_count,
        array_read(source, address, max_count, items@),
{
    array_from(source, address, max_count)
}

/// Reads exactly `count` items at `address`, or fails.
pub fn read_memory_full_array<T: MemoryValue>(
    source: &dyn MemorySource,
    address: u64,
    count: usize,
) -> (result: Result<Vec<T>, &'static str>)
    requires
        count * T::spec_size() <= usize::MAX,
    ensures
        match result {
            Ok(items) => items@.len() == count && full_array_read(
                source,
                address,
                count,
                Some(items@),
            ),
            Err(message) => message@ == short_read() && full_array_read(
                source,
                address,
                count,
                None::<Seq<T>>,
            ),
        },
{
    full_array_from(source, address, count)
}

/// Reads one item at `address`, or fails where the source returned less.
pub fn read_memory_data<T: MemoryValue>(source: &dyn MemorySource, address: u64) -> (result: Result<
    T,
    &'static str,
>)
    ensures
        match result {
            Ok(value) => data_read(source, address, Some(value)),
            Err(message) => message@ == short_read() && data_read(source, address, None::<T>),
        },
{
    data_from(source, address)
}

/// Length of the longest prefix of `units` without a zero.
pub open spec fn terminator<T>(units: Seq<T>, zero: T) -> int
    decreases units.len(),
{
    if units.len() == 0 || units[0] == zero {
        0
    } else {
        1 + terminator(units.skip(1), zero)
    }
}

/// `units` up to its first zero, the whole of it where it holds none.
pub open spec fn until_zero<T>(units: Seq<T>, zero: T) -> Seq<T> {
    units.take(terminator(units, zero))
}

/// The terminator lies within the units, holds a zero where it is not their
/// end, and no zero stands before it.
proof fn lemma_terminator<T>(units: Seq<T>, zero: T)
    ensures
        0 <= terminator(units, zero) <= units.len(),
        terminator(units, zero) < units.len() ==> units[terminator(units, zero)] == zero,
        forall|i: int| 0 <= i < terminator(units, zero) ==> units[i] != zero,
    decreases units.len(),
{
    if units.len() > 0 && units[0] != zero {
        let tail = units.skip(1);
        lemma_terminator(tail, zero);
        assert forall|i: int| 0 <= i < terminator(units, zero) implies units[i] != zero by {
            if i > 0 {
                assert(tail[i - 1] == units[i]);
            }
        }
    }
}

/// A position that holds the first zero, or the length where none is before
/// it, is the terminator.
proof fn lemma_terminator_is<T>(units: Seq<T>, zero: T, at: int)
    requires
        0 <= at <= units.len(),
        at < units.len() ==> units[at] == zero,
        forall|i: int| 0 <= i < at ==> units[i] != zero,
    ensures
        terminator(units, zero) == at,
{
    lemma_terminator(units, zero);
}

/// The text that `String::from_utf8_lossy` makes of `bytes`.
pub uninterp spec fn utf8_lossy(bytes: Seq<u8>) -> Seq<char>;

/// The text that `String::from_utf16_lossy` makes of `words`.
pub uninterp spec fn utf16_lossy(words: Seq<u16>) -> Seq<char>;

/// `String::from_utf8_lossy`: the text that the bytes encode in UTF-8, with
/// each invalid sequence replaced by U+FFFD. The contract names the result,
/// and says that valid UTF-8 is decoded as it stands.
#[verifier::external_body]
fn decode_utf8_lossy(bytes: &[u8]) -> (text: String)
    ensures
        text@ == utf8_lossy(bytes@),
        valid_utf8(bytes@) ==> text@ == decode_utf8(bytes@),
{
    String::from_utf8_lossy(bytes).into_owned()
}

/// `String::from_utf16_lossy`: the text that the words encode in UTF-16, with
/// each unpaired surrogate replaced by U+FFFD. The contract names the result.
#[verifier::external_body]
fn decode_utf16_lossy(words: &[u16]) -> (text: String)
    ensures
        text@ == utf16_lossy(words@),
{
    String::from_utf16_lossy(words)
}

/// A text of ASCII characters is what its bytes decode to: bytes that are
/// the values of such characters are valid UTF-8 and decode to the
/// characters.
pub proof fn lemma_ascii_bytes_decode(text: Seq<char>, bytes: Seq<u8>)
    requires
        is_ascii_chars(text),
        bytes.len() == text.len(),
        forall|i: int| 0 <= i < text.len() ==> bytes[i] == text[i] as u8,
    ensures
        valid_utf8(bytes),
        decode_utf8(bytes) == text,
{
    is_ascii_chars_encode_utf8(text);
    assert(encode_utf8(text) =~= bytes);
    encode_utf8_valid_utf8(text);
    encode_utf8_decode_utf8(text);
}

/// The text of a null-terminated string of bytes: what stands before the
/// first zero byte, decoded as UTF-8 with U+FFFD for what is invalid.
pub fn string_from_bytes(bytes: &[u8]) -> (text: String)
    ensures
        text@ == utf8_lossy(until_zero(bytes@, 0u8)),
        valid_utf8(until_zero(bytes@, 0u8)) ==> text@ == decode_utf8(until_zero(bytes@, 0u8)),
{
    let mut at: usize = 0;
    while at < bytes.len() && bytes[at] != 0
        invariant
            at <= bytes@.len(),
            forall|i: int| 0 <= i < at ==> bytes@[i] != 0u8,
        decreases bytes@.len() - at,
    {
        at += 1;
    }
    proof {
        lemma_terminator_is(bytes@, 0u8, at as int);
    }
    decode_utf8_lossy(slice_subrange(bytes, 0, at))
}

/// The text of a null-terminated string of 16-bit words: what stands before
/// the first zero word, decoded as UTF-16 with U+FFFD for what is invalid.
pub fn string_from_words(words: &[u16]) -> (text: String)
    ensures
        text@ == utf16_lossy(until_zero(words@, 0u16)),
{
    let mut at: usize = 0;
    while at < words.len() && words[at] != 0
        invariant
            at <= words@.len(),
            forall|i: int| 0 <= i < at ==> words@[i] != 0u16,
        decreases words@.len() - at,
    {
        at += 1;
    }
    proof {
        lemma_terminator_is(words@, 0u16, at as int);
    }
    decode_utf16_lossy(slice_subrange(words, 0, at))
}

/// Reads a null-terminated string of at most `max_count` units at `address`
/// from a source of any kind.
pub(crate) fn string_from<M: MemorySource + ?Sized>(
    source: &M,
    address: u64,
    max_count: usize,
    is_wide: bool,
) -> (text: String)
    requires
        is_wide ==> max_count * 2 <= usize::MAX,
    ensures
        string_read(source, address, max_count, is_wide, text@),
{
    if is_wide {
        let words = array_from::<u16, M>(source, address, max_count);
        assert(array_read(source, address, max_count, words@));
        string_from_words(words.as_slice())
    } else {
        let bytes = array_from::<u8, M>(source, address, max_count);
        assert(array_read(source, address, max_count, bytes@));
        string_from_bytes(bytes.as_slice())
    }
}

/// Whether `outcome` is what a read of the string whose address stands at
/// `address` makes of what the source gave: `None` where the address came
/// back short, else the string that was read at the address that came.
pub open spec fn indirect_string_read<M: MemorySource + ?Sized>(
    source: &M,
    address: u64,
    max_count: usize,
    is_wide: bool,
    outcome: Option<Seq<char>>,
) -> bool {
    exists|pointer: Option<u64>|
        #[trigger] data_read(source, address, pointer) && match pointer {
            Some(string_addr) => outcome matches Some(text) && string_read(
                source,
                string_addr,
                max_count,
                is_wide,
                text,
            ),
            None => outcome is None,
        }
}

/// Reads the string whose address stands at `address` from a source of any
/// kind.
pub(crate) fn string_indirect_from<M: MemorySource + ?Sized>(
    source: &M,
    address: u64,
    max_count: usize,
    is_wide: bool,
) -> (result: Result<String, &'static str>)
    requires
        is_wide ==> max_count * 2 <= usize::MAX,
    ensures
        match result {
            Ok(text) => indirect_string_read(source, address, max_count, is_wide, Some(text@)),
            Err(message) => message@ == short_read() && indirect_string_read(
                source,
                address,
                max_count,
                is_wide,
                None,
            ),
        },
{
    match data_from::<u64, M>(source, address) {
        Ok(string_addr) => {
            let text = string_from(source, string_addr, max_count, is_wide);
            assert(data_read(source, address, Some(string_addr)));
            Ok(text)
        },
        Err(message) => {
            assert(data_read::<u64, M>(source, address, None));
            Err(message)
        },
    }
}

/// Reads a null-terminated string of at most `max_count` units at `address`:
/// bytes, or 16-bit words where `is_wide`.
pub fn read_memory_string(
    source: &dyn MemorySource,
    address: u64,
    max_count: usize,
    is_wide: bool,
) -> (text: String)
    requires
        is_wide ==> max_count * 2 <= usize::MAX,
    ensures
        string_read(source, address, max_count, is_wide, text@),
{
    string_from(source, address, max_count, is_wide)
}

/// Reads the string whose address stands at `address`, or fails where that
/// address could not be read.
pub fn read_memory_string_indirect(
    source: &dyn MemorySource,
    address: u64,
    max_count: usize,
    is_wide: bool,
) -> (result: Result<String, &'static str>)
    requires
        is_wide ==> max_count * 2 <= usize::MAX,
    ensures
        match result {
            Ok(text) => indirect_string_read(source, address, max_count, is_wide, Some(text@)),
            Err(message) => message@ == short_read() && indirect_string_read(
                source,
                address,
                max_count,
                is_wide,
                None,
            ),
        },
{
    string_indirect_from(source, address, max_count, is_wide)
}

} // verus!
