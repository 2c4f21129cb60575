use dbgcore::breakpoint::{Breakpoint, BreakpointId, BreakpointManager, MAX_BREAKPOINTS};
use dbgcore::module::{Export, ExportTarget, Module};
use dbgcore::process::Process;

fn ids(manager: &BreakpointManager) -> Vec<u32> {
    (0..manager.len()).map(|i| manager.get(i).id.0).collect()
}

fn assert_sorted_and_unique(manager: &BreakpointManager) {
    let ids = ids(manager);
    for pair in ids.windows(2) {
        assert!(pair[0] < pair[1], "ids out of order: {:?}", ids);
    }
    for id in ids {
        assert!(id < MAX_BREAKPOINTS);
    }
}

#[test]
fn new_manager_is_empty() {
    let manager = BreakpointManager::new();
    assert_eq!(manager.len(), 0);
    assert!(!manager.is_full());
}

#[test]
fn ids_are_allocated_from_zero_upwards() {
    let mut manager = BreakpointManager::new();
    manager.add_breakpoint(0x1000);
    manager.add_breakpoint(0x2000);
    manager.add_breakpoint(0x3000);
    assert_eq!(manager.len(), 3);
    assert_eq!(manager.get(0), Breakpoint { id: BreakpointId(0), address: 0x1000 });
    assert_eq!(manager.get(1), Breakpoint { id: BreakpointId(1), address: 0x2000 });
    assert_eq!(manager.get(2), Breakpoint { id: BreakpointId(2), address: 0x3000 });
    assert_eq!(manager.get_free_id(), BreakpointId(3));
}

#[test]
fn every_sequence_of_adds_keeps_ids_sorted_unique_and_in_range() {
    let mut manager = BreakpointManager::new();
    for round in 0..200u64 {
        manager.add_breakpoint(0x4000 + round);
        assert_sorted_and_unique(&manager);
        if round % 3 == 0 {
            manager.remove_breakpoint(BreakpointId((round / 2) as u32));
            assert_sorted_and_unique(&manager);
        }
    }
}

#[test]
fn removing_an_unknown_id_changes_nothing() {
    let mut manager = BreakpointManager::new();
    manager.add_breakpoint(0x10);
    manager.add_breakpoint(0x20);
    manager.remove_breakpoint(BreakpointId(7));
    manager.remove_breakpoint(BreakpointId(u32::MAX));
    assert_eq!(manager.len(), 2);
    assert_eq!(manager.get(0), Breakpoint { id: BreakpointId(0), address: 0x10 });
    assert_eq!(manager.get(1), Breakpoint { id: BreakpointId(1), address: 0x20 });
}

#[test]
fn removing_from_an_empty_manager_changes_nothing() {
    let mut manager = BreakpointManager::new();
    manager.remove_breakpoint(BreakpointId(0));
    assert_eq!(manager.len(), 0);
}

#[test]
fn a_freed_id_is_reused_by_the_next_breakpoint() {
    let mut manager = BreakpointManager::new();
    for address in [0x10u64, 0x20, 0x30, 0x40] {
        manager.add_breakpoint(address);
    }
    manager.remove_breakpoint(BreakpointId(1));
    assert_eq!(ids(&manager), vec![0, 2, 3]);
    manager.add_breakpoint(0x50);
    assert_eq!(ids(&manager), vec![0, 1, 2, 3]);
    assert_eq!(manager.get(1), Breakpoint { id: BreakpointId(1), address: 0x50 });
}

#[test]
fn the_lowest_of_several_freed_ids_is_reused_first() {
    let mut manager = BreakpointManager::new();
    for address in 0..6u64 {
        manager.add_breakpoint(address);
    }
    manager.remove_breakpoint(BreakpointId(4));
    manager.remove_breakpoint(BreakpointId(2));
    assert_eq!(manager.get_free_id(), BreakpointId(2));
    manager.add_breakpoint(0xaa);
    assert_eq!(manager.get_free_id(), BreakpointId(4));
    manager.add_breakpoint(0xbb);
    assert_eq!(ids(&manager), vec![0, 1, 2, 3, 4, 5]);
    assert_eq!(manager.get(2).address, 0xaa);
    assert_eq!(manager.get(4).address, 0xbb);
    assert_eq!(manager.get_free_id(), BreakpointId(6));
}

#[test]
fn the_manager_is_full_at_1024_breakpoints() {
    let mut manager = BreakpointManager::new();
    for address in 0..1024u64 {
        assert!(!manager.is_full());
        manager.add_breakpoint(address);
    }
    assert!(manager.is_full());
    assert_eq!(manager.len(), 1024);
    assert_eq!(manager.get(1023).id, BreakpointId(1023));
    assert_sorted_and_unique(&manager);
    manager.remove_breakpoint(BreakpointId(512));
    assert!(!manager.is_full());
    assert_eq!(manager.get_free_id(), BreakpointId(512));
}

#[test]
fn list_shows_id_and_address() {
    let mut manager = BreakpointManager::new();
    manager.add_breakpoint(0x1234);
    let process = Process::new();
    let lines = manager.list_breakpoints(&process);
    assert_eq!(lines, vec!["  0 0x0000000000001234".to_string()]);
    assert_eq!(lines, vec![format!("{:3} {:#018x}", 0, 0x1234u64)]);
}

#[test]
fn list_shows_the_symbol_of_an_address_that_has_one() {
    let mut process = Process::new();
    process.push_module(Module {
        name: "app.exe".to_string(),
        address: 0x7ff6_0000_0000,
        size: 0x10000,
        exports: vec![Export {
            name: Some("main".to_string()),
            ordinal: 1,
            target: ExportTarget::RVA(0x7ff6_0000_1000),
        }],
        pdb_name: None,
        pdb_info: None,
        pdb: Err("No matching PDB".to_string()),
    });
    let mut manager = BreakpointManager::new();
    for _ in 0..11 {
        manager.add_breakpoint(0x10);
    }
    for id in 0..10 {
        manager.remove_breakpoint(BreakpointId(id));
    }
    manager.add_breakpoint(0x7ff6_0000_1000);
    manager.add_breakpoint(0x7ff6_0000_1abc);
    manager.add_breakpoint(u64::MAX);
    let lines = manager.list_breakpoints(&process);
    assert_eq!(
        lines,
        vec![
            "  0 0x00007ff600001000 (app.exe!main)".to_string(),
            "  1 0x00007ff600001abc (app.exe!main+0xabc)".to_string(),
            "  2 0xffffffffffffffff".to_string(),
            " 10 0x0000000000000010".to_string(),
        ]
    );
}

#[test]
fn list_pads_ids_to_three_columns_and_no_more() {
    let mut manager = BreakpointManager::new();
    for _ in 0..1024 {
        manager.add_breakpoint(0);
    }
    let process = Process::new();
    let lines = manager.list_breakpoints(&process);
    assert_eq!(lines[9], format!("{:3} {:#018x}", 9, 0u64));
    assert_eq!(lines[99], format!("{:3} {:#018x}", 99, 0u64));
    assert_eq!(lines[100], "100 0x0000000000000000");
    assert_eq!(lines[1023], "1023 0x0000000000000000");
}
