use std::cell::RefCell;

use dbgcore::memory::MemorySource;
use dbgcore::module::{
    choose_module_name, debug_entry_count, find_name_index, plan_codeview, rebase, CodeViewPlan,
    Export, ExportPlan, ExportTables, ExportTarget, Guid, Module, PdbInfo, TargetPlan,
};
use dbgcore::pe::{DataDirectory, DebugDirectory, NtHeaders64};
use dbgcore::process::Process;

/// Memory that holds `bytes` from `base` on and nothing else.
struct Image {
    base: u64,
    bytes: Vec<u8>,
}

impl MemorySource for Image {
    fn read_raw_memory(&self, address: u64, len: usize) -> Vec<u8> {
        if address < self.base {
            return Vec::new();
        }
        let start = (address - self.base) as usize;
        if start >= self.bytes.len() {
            return Vec::new();
        }
        let end = start.saturating_add(len).min(self.bytes.len());
        self.bytes[start..end].to_vec()
    }
}

impl Image {
    fn put(&mut self, at: usize, bytes: &[u8]) {
        self.bytes[at..at + bytes.len()].copy_from_slice(bytes);
    }

    fn put_u16(&mut self, at: usize, value: u16) {
        self.put(at, &value.to_le_bytes());
    }

    fn put_u32(&mut self, at: usize, value: u32) {
        self.put(at, &value.to_le_bytes());
    }
}

const BASE: u64 = 0x7ff6_1abc_0000;
const HEADERS: usize = 0x80;
const EXPORTS: u32 = 0x1000;
const EXPORTS_SIZE: u32 = 0x200;
const DEBUG: u32 = 0x2000;

/// An image with two headers and nothing else.
fn bare_image() -> Image {
    let mut image = Image { base: BASE, bytes: vec![0xcc; 0x3000] };
    image.put(0, &[0; 64]);
    image.put(0, b"MZ");
    image.put_u32(60, HEADERS as u32);
    image.put(HEADERS, &[0; 264]);
    image.put(HEADERS, b"PE\0\0");
    image.put_u32(HEADERS + 24 + 56, 0x3000);
    image
}

/// An image with four exports and a debug directory of two entries.
fn full_image() -> Image {
    let mut image = bare_image();
    image.put_u32(HEADERS + 24 + 112, EXPORTS);
    image.put_u32(HEADERS + 24 + 112 + 4, EXPORTS_SIZE);
    image.put_u32(HEADERS + 24 + 112 + 6 * 8, DEBUG);
    image.put_u32(HEADERS + 24 + 112 + 6 * 8 + 4, 2 * 28);

    let exports = EXPORTS as usize;
    image.put(exports, &[0; 40]);
    image.put_u32(exports + 12, 0x1100);
    image.put_u32(exports + 16, 5);
    image.put_u32(exports + 20, 4);
    image.put_u32(exports + 24, 2);
    image.put_u32(exports + 28, 0x1040);
    image.put_u32(exports + 32, 0x1060);
    image.put_u32(exports + 36, 0x1070);
    for (i, rva) in [0x500u32, 0x1180, 0x600, 0x1200].iter().enumerate() {
        image.put_u32(0x1040 + 4 * i, *rva);
    }
    image.put_u32(0x1060, 0x1110);
    image.put_u32(0x1064, 0x1120);
    image.put_u16(0x1070, 0);
    image.put_u16(0x1072, 2);
    image.put(0x1100, b"mylib.dll\0");
    image.put(0x1110, b"alpha\0");
    image.put(0x1120, b"gamma\0");
    image.put(0x1180, b"other.Function\0");

    let debug = DEBUG as usize;
    image.put(debug, &[0; 56]);
    image.put_u32(debug + 12, 1);
    image.put_u32(debug + 28 + 12, 2);
    image.put_u32(debug + 28 + 16, 24 + 21);
    image.put_u32(debug + 28 + 20, 0x2100);
    image.put(0x2100, b"RSDS");
    image.put(0x2104, &[0x78, 0x56, 0x34, 0x12, 0xbc, 0x9a, 0xf0, 0xde, 1, 2, 3, 4, 5, 6, 7, 8]);
    image.put_u32(0x2114, 3);
    image.put(0x2118, b"C:\\symbols\\mylib.pdb\0");
    image
}

fn summary(export: &Export) -> (Option<&str>, u32, String) {
    let target = match &export.target {
        ExportTarget::RVA(address) => format!("code {:#x}", address - BASE),
        ExportTarget::Forwarder(name) => format!("forwarder {}", name),
    };
    (export.name.as_deref(), export.ordinal, target)
}

#[test]
fn a_module_is_read_from_the_memory_of_the_target() {
    let image = full_image();
    let module = Module::from_memory_view(BASE, Some("hint.dll".to_string()), &image).unwrap();
    assert_eq!(module.name, "hint.dll");
    assert_eq!(module.address, BASE);
    assert_eq!(module.size, 0x3000);
    assert_eq!(module.pdb_name, Some("C:\\symbols\\mylib.pdb".to_string()));
    let info = module.pdb_info.unwrap();
    assert_eq!(info.signature, 0x5344_5352);
    assert_eq!(info.age, 3);
    assert_eq!(
        info.guid,
        Guid { data1: 0x1234_5678, data2: 0x9abc, data3: 0xdef0, data4: [1, 2, 3, 4, 5, 6, 7, 8] }
    );
    assert_eq!(module.pdb.err(), Some("No matching PDB".to_string()));
    let exports: Vec<_> = module.exports.iter().map(summary).collect();
    assert_eq!(
        exports,
        vec![
            (Some("alpha"), 5, "code 0x500".to_string()),
            (None, 6, "forwarder other.Function".to_string()),
            (Some("gamma"), 7, "code 0x600".to_string()),
            (None, 8, "code 0x1200".to_string()),
        ]
    );
}

#[test]
fn a_module_without_a_name_takes_that_of_its_export_directory() {
    let module = Module::from_memory_view(BASE, None, &full_image()).unwrap();
    assert_eq!(module.name, "mylib.dll");
}

#[test]
fn a_module_without_any_name_is_named_by_its_address() {
    let module = Module::from_memory_view(BASE, None, &bare_image()).unwrap();
    assert_eq!(module.name, "module_7FF61ABC0000");
    assert_eq!(module.name, format!("module_{:X}", BASE));
    assert_eq!(module.exports.len(), 0);
    assert_eq!(module.pdb_name, None);
    assert!(module.pdb_info.is_none());
    assert_eq!(module.size, 0x3000);
}

#[test]
fn the_name_of_a_module_is_chosen_in_order() {
    let hint = Some("hint".to_string());
    let exported = Some("exported".to_string());
    assert_eq!(choose_module_name(hint.clone(), exported.clone(), 0x10), "hint");
    assert_eq!(choose_module_name(hint, None, 0x10), "hint");
    assert_eq!(choose_module_name(None, exported, 0x10), "exported");
    assert_eq!(choose_module_name(None, None, 0x10), "module_10");
    assert_eq!(choose_module_name(None, None, 0), "module_0");
    assert_eq!(choose_module_name(None, None, 0xabcdef), "module_ABCDEF");
    assert_eq!(choose_module_name(None, None, u64::MAX), "module_FFFFFFFFFFFFFFFF");
}

#[test]
fn an_export_at_the_edge_of_the_directory_is_a_forwarder_inside_and_code_outside() {
    let mut image = full_image();
    image.put(0x11ff, b"\0");
    for (i, rva) in [EXPORTS - 1, EXPORTS, EXPORTS + EXPORTS_SIZE - 1, EXPORTS + EXPORTS_SIZE]
        .iter()
        .enumerate()
    {
        image.put_u32(0x1040 + 4 * i, *rva);
    }
    let module = Module::from_memory_view(BASE, None, &image).unwrap();
    let exports: Vec<_> = module.exports.iter().map(summary).collect();
    assert_eq!(
        exports,
        vec![
            (Some("alpha"), 5, "code 0xfff".to_string()),
            (None, 6, "forwarder ".to_string()),
            (Some("gamma"), 7, "forwarder ".to_string()),
            (None, 8, "code 0x1200".to_string()),
        ]
    );
}

fn tables(functions: Vec<u32>) -> ExportTables {
    ExportTables {
        module_address: 0x40_0000,
        table_addr: 0x40_1000,
        table_end: 0x40_1200,
        base: 1,
        ordinals: vec![1, 0, 1],
        names: vec![0x2000, 0x2010, 0x2020],
        functions,
    }
}

#[test]
fn the_plan_of_an_export_tells_forwarders_from_code_by_the_span() {
    let tables = tables(vec![0xfff, 0x1000, 0x1100, 0x11ff, 0x1200, 0]);
    let targets: Vec<TargetPlan> = (0..6).map(|i| tables.plan(i).unwrap().target).collect();
    assert_eq!(
        targets,
        vec![
            TargetPlan::Code(0x40_0fff),
            TargetPlan::ForwarderAt(0x40_1000),
            TargetPlan::ForwarderAt(0x40_1100),
            TargetPlan::ForwarderAt(0x40_11ff),
            TargetPlan::Code(0x40_1200),
            TargetPlan::Code(0x40_0000),
        ]
    );
}

#[test]
fn the_plan_of_an_export_names_it_by_the_first_entry_for_its_index() {
    let tables = tables(vec![0x10, 0x20, 0x30]);
    assert_eq!(
        tables.plan(0),
        Ok(ExportPlan { ordinal: 1, name_at: Some(0x40_2010), target: TargetPlan::Code(0x40_0010) })
    );
    assert_eq!(
        tables.plan(1),
        Ok(ExportPlan { ordinal: 2, name_at: Some(0x40_2000), target: TargetPlan::Code(0x40_0020) })
    );
    assert_eq!(
        tables.plan(2),
        Ok(ExportPlan { ordinal: 3, name_at: None, target: TargetPlan::Code(0x40_0030) })
    );
    assert_eq!(find_name_index(&vec![1, 0, 1], 1), Some(0));
    assert_eq!(find_name_index(&vec![1, 0, 1], 0), Some(1));
    assert_eq!(find_name_index(&vec![1, 0, 1], 2), None);
    assert_eq!(find_name_index(&vec![0], 0x10000), None);
    assert_eq!(find_name_index(&vec![], 0), None);
}

#[test]
fn a_plan_fails_where_an_ordinal_or_an_address_does_not_fit() {
    let mut high = tables(vec![0x10, 0x20]);
    high.base = u32::MAX;
    assert_eq!(high.plan(0).map(|plan| plan.ordinal), Ok(u32::MAX));
    assert_eq!(high.plan(1), Err("Ordinal out of range"));
    let mut far = tables(vec![0x10, 0x20]);
    far.module_address = u64::MAX - 0x1f;
    assert_eq!(far.plan(0), Err("Address out of range"));
    assert_eq!(far.plan(1), Err("Address out of range"));
    assert_eq!(rebase(u64::MAX - 5, 5), Ok(u64::MAX));
    assert_eq!(rebase(u64::MAX - 5, 6), Err("Address out of range"));
    assert_eq!(rebase(0, u32::MAX), Ok(u32::MAX as u64));
}

#[test]
fn a_table_that_cannot_be_read_in_full_fails_the_load() {
    let mut image = full_image();
    image.bytes.truncate(0x1048);
    assert_eq!(
        Module::from_memory_view(BASE, None, &image).err(),
        Some("Could not read all items".to_string())
    );
    let mut image = full_image();
    image.put_u32(EXPORTS as usize + 24, 0x10000);
    assert_eq!(
        Module::from_memory_view(BASE, None, &image).err(),
        Some("Could not read all items".to_string())
    );
}

#[test]
fn headers_that_cannot_be_read_fail_the_load() {
    let empty = Image { base: BASE, bytes: Vec::new() };
    assert_eq!(
        Module::from_memory_view(BASE, None, &empty).err(),
        Some("Could not read all items".to_string())
    );
    let mut image = bare_image();
    image.bytes.truncate(HEADERS + 263);
    assert_eq!(
        Module::from_memory_view(BASE, None, &image).err(),
        Some("Could not read all items".to_string())
    );
    let mut image = bare_image();
    image.put_u32(60, 0x8000_0000);
    assert_eq!(
        Module::from_memory_view(BASE, None, &image).err(),
        Some("Address out of range".to_string())
    );
    let mut image = bare_image();
    image.put_u32(60, 0x4000);
    assert_eq!(
        Module::from_memory_view(BASE, None, &image).err(),
        Some("Could not read all items".to_string())
    );
}

#[test]
fn the_last_codeview_entry_of_the_debug_directory_counts() {
    let mut image = full_image();
    let debug = DEBUG as usize;
    image.put_u32(debug + 12, 2);
    image.put_u32(debug + 16, 24 + 6);
    image.put_u32(debug + 20, 0x2200);
    image.put(0x2200, &[0; 24]);
    image.put(0x2218, b"a.pdb\0");
    let module = Module::from_memory_view(BASE, None, &image).unwrap();
    assert_eq!(module.pdb_name, Some("C:\\symbols\\mylib.pdb".to_string()));
    image.put_u32(debug + 28 + 12, 7);
    let module = Module::from_memory_view(BASE, None, &image).unwrap();
    assert_eq!(module.pdb_name, Some("a.pdb".to_string()));
    assert_eq!(module.pdb_info.unwrap().age, 0);
}

#[test]
fn the_name_of_the_symbol_store_ends_with_the_record() {
    let mut image = full_image();
    image.put_u32(DEBUG as usize + 28 + 16, 24 + 10);
    let module = Module::from_memory_view(BASE, None, &image).unwrap();
    assert_eq!(module.pdb_name, Some("C:\\symbols".to_string()));
    image.put_u32(DEBUG as usize + 28 + 16, 23);
    assert_eq!(
        Module::from_memory_view(BASE, None, &image).err(),
        Some("Debug record too short".to_string())
    );
}

#[test]
fn no_more_than_twenty_entries_of_the_debug_directory_are_read() {
    let mut image = bare_image();
    image.put_u32(HEADERS + 24 + 112 + 6 * 8, DEBUG);
    image.put_u32(HEADERS + 24 + 112 + 6 * 8 + 4, 21 * 28);
    let debug = DEBUG as usize;
    image.put(debug, &[0; 21 * 28]);
    image.put_u32(debug + 20 * 28 + 12, 2);
    image.put_u32(debug + 20 * 28 + 16, 24 + 6);
    image.put_u32(debug + 20 * 28 + 20, 0x2400);
    image.put(0x2400, &[0; 24]);
    image.put(0x2418, b"z.pdb\0");
    let module = Module::from_memory_view(BASE, None, &image).unwrap();
    assert_eq!(module.pdb_name, None);
    image.put_u32(debug + 19 * 28 + 12, 2);
    image.put_u32(debug + 19 * 28 + 16, 24 + 6);
    image.put_u32(debug + 19 * 28 + 20, 0x2400);
    let module = Module::from_memory_view(BASE, None, &image).unwrap();
    assert_eq!(module.pdb_name, Some("z.pdb".to_string()));
}

#[test]
fn the_parts_of_a_module_are_read_one_by_one() {
    let image = full_image();
    let absent = DataDirectory { virtual_address: 0, size: 0 };
    let header = NtHeaders64 {
        size_of_image: 0x3000,
        export_table: DataDirectory { virtual_address: EXPORTS, size: EXPORTS_SIZE },
        debug_table: absent,
    };
    let (exports, name) = Module::read_exports(&header, BASE, &image).unwrap();
    assert_eq!(exports.len(), 4);
    assert_eq!(name, Some("mylib.dll".to_string()));
    let (info, name) = Module::read_debug_info(&header, BASE, &image).unwrap();
    assert!(info.is_none() && name.is_none());
    let header = NtHeaders64 {
        size_of_image: 0x3000,
        export_table: absent,
        debug_table: DataDirectory { virtual_address: DEBUG, size: 2 * 28 },
    };
    let (exports, name) = Module::read_exports(&header, BASE, &image).unwrap();
    assert!(exports.is_empty() && name.is_none());
    let (info, name) = Module::read_debug_info(&header, BASE, &image).unwrap();
    assert_eq!(info.map(|info| info.age), Some(3));
    assert_eq!(name, Some("C:\\symbols\\mylib.pdb".to_string()));
    let header = NtHeaders64 {
        size_of_image: 0x3000,
        export_table: absent,
        debug_table: DataDirectory { virtual_address: DEBUG, size: 27 },
    };
    let (info, name) = Module::read_debug_info(&header, u64::MAX, &image).unwrap();
    assert!(info.is_none() && name.is_none());
}

#[test]
fn a_process_takes_the_modules_that_it_could_read() {
    let mut process = Process::new();
    let image = full_image();
    let name = process.add_module(BASE, None, &image).map(|module| module.name.clone());
    assert_eq!(name, Ok("mylib.dll".to_string()));
    assert_eq!(process.module_count(), 1);
    let failed = process.add_module(BASE + 0x2fe0, None, &image).map(|module| module.name.clone());
    assert_eq!(failed, Err("Could not read all items".to_string()));
    assert_eq!(process.module_count(), 1);
    assert_eq!(
        dbgcore::name_resolution::resolve_address_to_name(BASE + 0x5ff, &process),
        Some("mylib.dll!alpha+0xff".to_string())
    );
    assert_eq!(
        dbgcore::name_resolution::resolve_name_to_address("MYLIB.DLL!gamma", &process),
        Ok(BASE + 0x600)
    );
}

#[test]
fn the_entries_of_the_debug_directory_are_counted_by_its_size() {
    let count = |virtual_address: u32, size: u32| {
        debug_entry_count(&DataDirectory { virtual_address, size })
    };
    assert_eq!(count(0, 56), 0);
    assert_eq!(count(0x2000, 0), 0);
    assert_eq!(count(0x2000, 27), 0);
    assert_eq!(count(0x2000, 28), 1);
    assert_eq!(count(0x2000, 55), 1);
    assert_eq!(count(0x2000, 56), 2);
    assert_eq!(count(0x2000, 20 * 28 - 1), 19);
    assert_eq!(count(0x2000, 20 * 28), 20);
    assert_eq!(count(0x2000, 21 * 28), 20);
    assert_eq!(count(1, u32::MAX), 20);
}

#[test]
fn a_codeview_entry_places_the_descriptor_and_the_name_behind_it() {
    let entry = DebugDirectory { kind: 2, size_of_data: 24 + 10, address_of_raw_data: 0x2100 };
    assert_eq!(
        plan_codeview(&entry, 0x40_0000),
        Ok(Some(CodeViewPlan { info_at: 0x40_2100, name_at: 0x40_2118, name_limit: 10 }))
    );
    let other = DebugDirectory { kind: 1, ..entry };
    assert_eq!(plan_codeview(&other, 0x40_0000), Ok(None));
    assert_eq!(plan_codeview(&other, u64::MAX), Ok(None));
    let only_descriptor = DebugDirectory { size_of_data: 24, ..entry };
    assert_eq!(
        plan_codeview(&only_descriptor, 0),
        Ok(Some(CodeViewPlan { info_at: 0x2100, name_at: 0x2118, name_limit: 0 }))
    );
    let short = DebugDirectory { size_of_data: 23, ..entry };
    assert_eq!(plan_codeview(&short, 0x40_0000), Err("Debug record too short"));
    assert_eq!(plan_codeview(&entry, u64::MAX - 0x2100), Err("Address out of range"));
    assert_eq!(plan_codeview(&entry, u64::MAX - 0x2117), Err("Address out of range"));
    assert_eq!(
        plan_codeview(&entry, u64::MAX - 0x2118).map(|plan| plan.map(|plan| plan.name_at)),
        Ok(Some(u64::MAX))
    );
}

#[test]
fn the_default_descriptor_of_a_symbol_store_is_all_zero() {
    let info = PdbInfo::default();
    assert_eq!(info.signature, 0);
    assert_eq!(info.age, 0);
    assert_eq!(info.guid, Guid { data1: 0, data2: 0, data3: 0, data4: [0; 8] });
}

/// An image that keeps a list of the reads that were made of it.
struct Recorded {
    image: Image,
    reads: RefCell<Vec<(u64, usize)>>,
}

impl MemorySource for Recorded {
    fn read_raw_memory(&self, address: u64, len: usize) -> Vec<u8> {
        self.reads.borrow_mut().push((address - self.image.base, len));
        self.image.read_raw_memory(address, len)
    }
}

#[test]
fn a_module_is_read_in_the_order_of_its_parts() {
    let source = Recorded { image: full_image(), reads: RefCell::new(Vec::new()) };
    let module = Module::from_memory_view(BASE, None, &source).unwrap();
    assert_eq!(module.exports.len(), 4);
    assert_eq!(
        source.reads.borrow().clone(),
        vec![
            (0, 64),
            (0x80, 264),
            (0x2000, 28),
            (0x201c, 28),
            (0x2100, 24),
            (0x2118, 21),
            (0x1000, 40),
            (0x1100, 512),
            (0x1070, 4),
            (0x1060, 8),
            (0x1040, 16),
            (0x1110, 4096),
            (0x1180, 4096),
            (0x1120, 4096),
        ]
    );
}

#[test]
fn a_module_without_directories_takes_two_reads() {
    let source = Recorded { image: bare_image(), reads: RefCell::new(Vec::new()) };
    Module::from_memory_view(BASE, None, &source).unwrap();
    assert_eq!(source.reads.borrow().clone(), vec![(0, 64), (0x80, 264)]);
    source.reads.borrow_mut().clear();
    let header = NtHeaders64 {
        size_of_image: 0,
        export_table: DataDirectory { virtual_address: 0, size: 0x100 },
        debug_table: DataDirectory { virtual_address: 0x2000, size: 27 },
    };
    assert!(Module::read_exports(&header, BASE, &source).is_ok());
    assert!(Module::read_debug_info(&header, BASE, &source).is_ok());
    assert!(source.reads.borrow().is_empty());
}

#[test]
fn a_load_stops_at_the_first_read_that_comes_back_short() {
    let mut image = full_image();
    image.bytes.truncate(0x2110);
    let source = Recorded { image, reads: RefCell::new(Vec::new()) };
    assert_eq!(
        Module::from_memory_view(BASE, None, &source).err(),
        Some("Could not read all items".to_string())
    );
    assert_eq!(
        source.reads.borrow().clone(),
        vec![(0, 64), (0x80, 264), (0x2000, 28), (0x201c, 28), (0x2100, 24)]
    );
}
