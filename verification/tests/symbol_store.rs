use dbgcore::module::{Module, PublicFunction, SymbolStore};
use dbgcore::name_resolution::resolve_address_in_module;
use dbgcore::symbols::{read_function_records, PublicRecord};

const PAGE: usize = 4096;

fn put(file: &mut Vec<u8>, at: usize, bytes: &[u8]) {
    file[at..at + bytes.len()].copy_from_slice(bytes);
}

fn put_u16(file: &mut Vec<u8>, at: usize, value: u16) {
    put(file, at, &value.to_le_bytes());
}

fn put_u32(file: &mut Vec<u8>, at: usize, value: u32) {
    put(file, at, &value.to_le_bytes());
}

/// A symbol record: its length, its kind and what it holds.
fn record(kind: u16, payload: &[u8]) -> Vec<u8> {
    let mut bytes = Vec::new();
    bytes.extend_from_slice(&((payload.len() + 2) as u16).to_le_bytes());
    bytes.extend_from_slice(&kind.to_le_bytes());
    bytes.extend_from_slice(payload);
    bytes
}

/// A public symbol record.
fn public(flags: u32, section: u16, offset: u32, name: &str) -> Vec<u8> {
    let mut payload = Vec::new();
    payload.extend_from_slice(&flags.to_le_bytes());
    payload.extend_from_slice(&offset.to_le_bytes());
    payload.extend_from_slice(&section.to_le_bytes());
    payload.extend_from_slice(name.as_bytes());
    payload.push(0);
    record(0x110e, &payload)
}

/// A section header of an image, as a symbol store keeps it.
fn section(name: &[u8; 8], virtual_address: u32) -> Vec<u8> {
    let mut bytes = vec![0; 40];
    bytes[..8].copy_from_slice(name);
    bytes[8..12].copy_from_slice(&0x1000u32.to_le_bytes());
    bytes[12..16].copy_from_slice(&virtual_address.to_le_bytes());
    bytes
}

/// A program database of seven pages: the header, the free page map, the
/// list of the directory's pages, the directory, and three streams: the
/// debug information, the symbol records and the section headers.
fn program_database(symbols: &[u8], sections: &[u8]) -> Vec<u8> {
    let mut file = vec![0u8; 7 * PAGE];
    put(&mut file, 0, b"Microsoft C/C++ MSF 7.00\r\n\x1a\x44\x53\x00\x00\x00");
    put_u32(&mut file, 32, PAGE as u32);
    put_u32(&mut file, 36, 1);
    put_u32(&mut file, 40, 7);
    put_u32(&mut file, 44, 4 + 7 * 4 + 3 * 4);
    put_u32(&mut file, 52, 2);

    put_u32(&mut file, 2 * PAGE, 3);

    let directory = 3 * PAGE;
    put_u32(&mut file, directory, 7);
    let sizes = [0u32, 0, 0, 64 + 22, 0, symbols.len() as u32, sections.len() as u32];
    for (i, size) in sizes.iter().enumerate() {
        put_u32(&mut file, directory + 4 + 4 * i, *size);
    }
    for (i, page) in [4u32, 5, 6].iter().enumerate() {
        put_u32(&mut file, directory + 4 + 7 * 4 + 4 * i, *page);
    }

    let dbi = 4 * PAGE;
    put_u32(&mut file, dbi, u32::MAX);
    put_u32(&mut file, dbi + 4, 19990903);
    put_u32(&mut file, dbi + 8, 1);
    put_u16(&mut file, dbi + 12, 0xffff);
    put_u16(&mut file, dbi + 16, 0xffff);
    put_u16(&mut file, dbi + 20, 5);
    put_u32(&mut file, dbi + 48, 22);
    put_u16(&mut file, dbi + 58, 0x8664);
    for slot in 0..11 {
        let stream = if slot == 5 { 6 } else { 0xffff };
        put_u16(&mut file, dbi + 64 + 2 * slot, stream);
    }

    put(&mut file, 5 * PAGE, symbols);
    put(&mut file, 6 * PAGE, sections);
    file
}

fn sample_symbols() -> Vec<u8> {
    let mut symbols = Vec::new();
    symbols.extend(public(2, 1, 0x10, "main"));
    symbols.extend(public(0, 2, 0x8, "g_table"));
    symbols.extend(record(0x0006, &[]));
    symbols.extend(public(3, 2, 0x20, "helper"));
    symbols.extend(record(0x0402, &[0, 0]));
    symbols.extend(public(2, 9, 0x30, "orphan"));
    symbols.extend(public(1, 1, 0x40, "label"));
    symbols
}

fn sample_sections() -> Vec<u8> {
    let mut sections = section(b".text\0\0\0", 0x1000);
    sections.extend(section(b".data\0\0\0", 0x5000));
    sections
}

fn names_and_places(records: &[PublicRecord]) -> Vec<(String, u16, u32)> {
    records
        .iter()
        .map(|record| {
            assert!(record.function);
            (record.name.clone(), record.section, record.offset)
        })
        .collect()
}

fn names_and_offsets(store: &SymbolStore) -> Vec<(String, u32)> {
    store.functions.iter().map(|f| (f.name.clone(), f.rva)).collect()
}

#[test]
fn the_public_functions_of_a_program_database_are_read_in_order() {
    let file = program_database(&sample_symbols(), &sample_sections());
    let records = read_function_records(file).unwrap();
    assert_eq!(
        names_and_places(&records),
        vec![
            ("main".to_string(), 1, 0x10),
            ("helper".to_string(), 2, 0x20),
            ("orphan".to_string(), 9, 0x30),
        ]
    );
}

#[test]
fn bytes_that_are_no_program_database_give_the_reason() {
    let message = read_function_records(b"MZ, not a symbol store".to_vec()).err().unwrap();
    assert!(!message.is_empty());
    assert!(read_function_records(Vec::new()).is_err());
    assert!(read_function_records(vec![0; 2 * PAGE]).is_err());
    let mut file = program_database(&sample_symbols(), &sample_sections());
    put_u32(&mut file, 32, 4095);
    assert!(read_function_records(file).is_err());
}

#[test]
fn a_program_database_without_symbols_gives_no_records() {
    let records = read_function_records(program_database(&[], &sample_sections())).unwrap();
    assert!(records.is_empty());
    let mut file = program_database(&sample_symbols(), &sample_sections());
    put_u32(&mut file, 4 * PAGE, 1);
    let records = read_function_records(file).unwrap();
    assert!(records.is_empty());
}

#[test]
fn a_table_of_symbols_that_breaks_off_gives_those_before() {
    let mut symbols = Vec::new();
    symbols.extend(public(2, 1, 0x10, "main"));
    symbols.extend_from_slice(&[1, 0, 0, 0]);
    symbols.extend(public(2, 1, 0x20, "later"));
    let records = read_function_records(program_database(&symbols, &sample_sections())).unwrap();
    assert_eq!(names_and_places(&records), vec![("main".to_string(), 1, 0x10)]);
}

#[test]
fn symbols_of_other_kinds_are_passed_over_unparsed() {
    let mut symbols = Vec::new();
    // A constant whose value is a leaf that the parser of constants does not know.
    symbols.extend(record(0x1107, &[0, 0, 0, 0, 0x05, 0x80, 0, 0, 0, 0, b'c', 0]));
    symbols.extend(public(2, 1, 0x10, "after"));
    // A public symbol that breaks off before its name ends.
    symbols.extend(record(0x110e, &[2, 0, 0, 0, 0x20, 0, 0, 0, 1, 0, b'x']));
    // A public symbol of the kind that holds the length of its name.
    symbols.extend(record(0x1009, &[2, 0, 0, 0, 0x30, 0, 0, 0, 2, 0, 3, b'o', b'l', b'd']));
    let records = read_function_records(program_database(&symbols, &sample_sections())).unwrap();
    assert_eq!(
        names_and_places(&records),
        vec![("after".to_string(), 1, 0x10), ("old".to_string(), 2, 0x30)]
    );
}

#[test]
fn a_store_takes_functions_one_behind_the_other() {
    let mut store = SymbolStore::new();
    assert!(store.functions.is_empty());
    store.add_function("first".to_string(), Some(0x10));
    store.add_function("second".to_string(), None);
    store.add_function("third".to_string(), Some(u32::MAX));
    assert_eq!(
        names_and_offsets(&store),
        vec![
            ("first".to_string(), 0x10),
            ("second".to_string(), 0),
            ("third".to_string(), u32::MAX),
        ]
    );
}

#[test]
fn the_symbols_of_a_store_name_the_addresses_of_its_module() {
    let file = program_database(&sample_symbols(), &sample_sections());
    let mut module = Module {
        name: "app.exe".to_string(),
        address: 0x40_0000,
        size: 0x10000,
        exports: Vec::new(),
        pdb_name: Some("app.pdb".to_string()),
        pdb_info: None,
        pdb: Err("No matching PDB".to_string()),
    };
    assert_eq!(resolve_address_in_module(&module, 0x40_1014), None);
    let starts = [0x1000u32, 0x5000];
    let mut store = SymbolStore::new();
    for record in read_function_records(file).unwrap() {
        let start = starts.get(record.section as usize - 1);
        store.add_function(record.name, start.map(|start| start + record.offset));
    }
    module.set_symbol_store(Ok(store));
    assert_eq!(resolve_address_in_module(&module, 0x40_1014), Some("app.exe!main+0x4".to_string()));
    assert_eq!(resolve_address_in_module(&module, 0x40_5020), Some("app.exe!helper".to_string()));
    assert_eq!(resolve_address_in_module(&module, 0x40_0fff), Some("app.exe!orphan+0xfff".to_string()));
    module.set_symbol_store(Err("gone".to_string()));
    assert_eq!(resolve_address_in_module(&module, 0x40_1014), None);
    module.set_symbol_store(Ok(SymbolStore {
        functions: vec![PublicFunction { name: "f".to_string(), rva: 0x1000 }],
    }));
    assert_eq!(resolve_address_in_module(&module, 0x40_1014), Some("app.exe!f+0x14".to_string()));
}
