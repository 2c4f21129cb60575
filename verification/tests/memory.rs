use std::cell::RefCell;

use dbgcore::memory::{
    decode_array, get_u16, get_u32, get_u64, read_memory_array, read_memory_data,
    read_memory_full_array, read_memory_string, read_memory_string_indirect, string_from_bytes,
    string_from_words, MemorySource,
};

/// Memory that holds `bytes` from `base` on and nothing else.
struct Block {
    base: u64,
    bytes: Vec<u8>,
}

impl MemorySource for Block {
    fn read_raw_memory(&self, address: u64, len: usize) -> Vec<u8> {
        if address < self.base {
            return Vec::new();
        }
        let start = (address - self.base) as usize;
        if start >= self.bytes.len() {
            return Vec::new();
        }
        let end = start.saturating_add(len).min(self.bytes.len());
        self.bytes[start..end].to_vec()
    }
}

fn block(bytes: &[u8]) -> Block {
    Block { base: 0x1000, bytes: bytes.to_vec() }
}

#[test]
fn numbers_are_read_least_significant_byte_first() {
    let bytes = [0x01, 0x02, 0x03, 0x04, 0x05, 0x06, 0x07, 0x08, 0xff];
    assert_eq!(get_u16(&bytes, 0), 0x0201);
    assert_eq!(get_u16(&bytes, 7), 0xff08);
    assert_eq!(get_u32(&bytes, 0), 0x04030201);
    assert_eq!(get_u32(&bytes, 5), 0xff080706);
    assert_eq!(get_u64(&bytes, 0), 0x0807060504030201);
    assert_eq!(get_u64(&bytes, 1), 0xff08070605040302);
    assert_eq!(get_u64(&[0xff; 8], 0), u64::MAX);
    assert_eq!(get_u32(&bytes, 1), u32::from_le_bytes([2, 3, 4, 5]));
}

#[test]
fn an_array_holds_the_whole_items_of_the_bytes() {
    let bytes = [1, 0, 2, 0, 3, 0, 4];
    assert_eq!(decode_array::<u16>(&bytes), vec![1, 2, 3]);
    assert_eq!(decode_array::<u32>(&bytes), vec![0x0002_0001]);
    assert_eq!(decode_array::<u64>(&bytes), Vec::<u64>::new());
    assert_eq!(decode_array::<u8>(&bytes), bytes.to_vec());
    assert_eq!(decode_array::<u32>(&[]), Vec::<u32>::new());
}

#[test]
fn an_array_read_gives_what_the_source_could_read() {
    let source = block(&[1, 0, 0, 0, 2, 0, 0, 0, 3, 0]);
    assert_eq!(read_memory_array::<u32>(&source, 0x1000, 2), vec![1, 2]);
    assert_eq!(read_memory_array::<u32>(&source, 0x1000, 3), vec![1, 2]);
    assert_eq!(read_memory_array::<u32>(&source, 0x1004, 8), vec![2]);
    assert_eq!(read_memory_array::<u32>(&source, 0x1008, 1), Vec::<u32>::new());
    assert_eq!(read_memory_array::<u32>(&source, 0x0fff, 1), Vec::<u32>::new());
    assert_eq!(read_memory_array::<u16>(&source, 0x1000, 0), Vec::<u16>::new());
}

#[test]
fn a_full_array_read_fails_on_a_short_read() {
    let source = block(&[1, 0, 2, 0, 3]);
    assert_eq!(read_memory_full_array::<u16>(&source, 0x1000, 2), Ok(vec![1, 2]));
    assert_eq!(read_memory_full_array::<u16>(&source, 0x1000, 0), Ok(vec![]));
    assert_eq!(
        read_memory_full_array::<u16>(&source, 0x1000, 3),
        Err("Could not read all items")
    );
    assert_eq!(
        read_memory_full_array::<u16>(&source, 0x2000, 1),
        Err("Could not read all items")
    );
}

#[test]
fn one_item_is_read_or_the_read_fails() {
    let source = block(&[0x78, 0x56, 0x34, 0x12, 0xaa]);
    assert_eq!(read_memory_data::<u32>(&source, 0x1000), Ok(0x12345678));
    assert_eq!(read_memory_data::<u8>(&source, 0x1004), Ok(0xaa));
    assert_eq!(read_memory_data::<u32>(&source, 0x1002), Err("Could not read all items"));
    assert_eq!(read_memory_data::<u64>(&source, 0x1000), Err("Could not read all items"));
    assert_eq!(read_memory_data::<u8>(&source, 0x1005), Err("Could not read all items"));
}

#[test]
fn a_string_ends_at_its_first_zero() {
    assert_eq!(string_from_bytes(b"hello\0world"), "hello");
    assert_eq!(string_from_bytes(b"hello"), "hello");
    assert_eq!(string_from_bytes(b"\0hello"), "");
    assert_eq!(string_from_bytes(b""), "");
    assert_eq!(string_from_bytes("grüße\0".as_bytes()), "grüße");
    assert_eq!(string_from_bytes(&[b'a', 0xff, b'b', 0, b'c']), "a\u{fffd}b");
    let wide: Vec<u16> = "wide ü\0rest".encode_utf16().collect();
    assert_eq!(string_from_words(&wide), "wide ü");
    assert_eq!(string_from_words(&[0x61, 0xd800, 0x62]), "a\u{fffd}b");
    assert_eq!(string_from_words(&[]), "");
}

#[test]
fn a_string_is_read_up_to_its_limit() {
    let source = block(b"kernel32.dll\0junk");
    assert_eq!(read_memory_string(&source, 0x1000, 260, false), "kernel32.dll");
    assert_eq!(read_memory_string(&source, 0x1000, 6, false), "kernel");
    assert_eq!(read_memory_string(&source, 0x1000, 0, false), "");
    assert_eq!(read_memory_string(&source, 0x100d, 260, false), "junk");
    assert_eq!(read_memory_string(&source, 0x5000, 260, false), "");
}

#[test]
fn a_wide_string_is_read_in_16_bit_units() {
    let mut bytes = Vec::new();
    for unit in "ntdll.dll\0tail".encode_utf16() {
        bytes.extend_from_slice(&unit.to_le_bytes());
    }
    bytes.push(0x41);
    let source = block(&bytes);
    assert_eq!(read_memory_string(&source, 0x1000, 260, true), "ntdll.dll");
    assert_eq!(read_memory_string(&source, 0x1000, 5, true), "ntdll");
    assert_eq!(read_memory_string(&source, 0x1014, 260, true), "tail");
}

#[test]
fn an_indirect_string_is_read_through_its_address() {
    let mut bytes = Vec::new();
    bytes.extend_from_slice(&0x1010u64.to_le_bytes());
    bytes.extend_from_slice(&0x9999u64.to_le_bytes());
    bytes.extend_from_slice(b"target.exe\0");
    bytes.extend_from_slice(&[0x10, 0x10, 0, 0]);
    let source = block(&bytes);
    assert_eq!(
        read_memory_string_indirect(&source, 0x1000, 260, false),
        Ok("target.exe".to_string())
    );
    assert_eq!(read_memory_string_indirect(&source, 0x1008, 260, false), Ok(String::new()));
    assert_eq!(
        read_memory_string_indirect(&source, 0x101b, 260, false),
        Err("Could not read all items")
    );
}

/// Memory that holds `bytes` from `base` on and keeps a list of the reads
/// that were made of it.
struct Recorded {
    block: Block,
    reads: RefCell<Vec<(u64, usize)>>,
}

impl MemorySource for Recorded {
    fn read_raw_memory(&self, address: u64, len: usize) -> Vec<u8> {
        self.reads.borrow_mut().push((address, len));
        self.block.read_raw_memory(address, len)
    }
}

fn recorded(bytes: &[u8]) -> Recorded {
    Recorded { block: block(bytes), reads: RefCell::new(Vec::new()) }
}

#[test]
fn each_reader_makes_one_read_of_the_bytes_that_it_needs() {
    let source = recorded(&[1, 2, 3, 4, 5, 6, 7, 8, 9, 10]);
    assert_eq!(read_memory_data::<u32>(&source, 0x1002), Ok(0x06050403));
    assert_eq!(read_memory_array::<u16>(&source, 0x1001, 3), vec![0x0302, 0x0504, 0x0706]);
    assert_eq!(read_memory_full_array::<u64>(&source, 0x1004, 2), Err("Could not read all items"));
    assert_eq!(read_memory_string(&source, 0x1008, 7, false), "\t\n");
    assert_eq!(read_memory_string(&source, 0x1000, 2, true), "\u{201}\u{403}");
    assert_eq!(
        source.reads.borrow().clone(),
        vec![(0x1002, 4), (0x1001, 6), (0x1004, 16), (0x1008, 7), (0x1000, 4)]
    );
}

#[test]
fn an_indirect_string_takes_a_read_of_the_address_and_one_at_it() {
    let mut bytes = Vec::new();
    bytes.extend_from_slice(&0x1008u64.to_le_bytes());
    bytes.extend_from_slice(b"name\0");
    let source = recorded(&bytes);
    assert_eq!(read_memory_string_indirect(&source, 0x1000, 260, false), Ok("name".to_string()));
    assert_eq!(source.reads.borrow().clone(), vec![(0x1000, 8), (0x1008, 260)]);
    source.reads.borrow_mut().clear();
    assert_eq!(
        read_memory_string_indirect(&source, 0x1006, 260, true),
        Err("Could not read all items")
    );
    assert_eq!(source.reads.borrow().clone(), vec![(0x1006, 8)]);
}
