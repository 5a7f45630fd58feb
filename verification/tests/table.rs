use std::sync::Arc;

use errai::erts::table::actual_capacity;
use errai::erts::table::ProcessTable;
use errai::erts::table::ProcessTableFull;
use errai::erts::table::DEF_ENTRIES;
use errai::erts::table::MAX_ENTRIES;
use errai::erts::table::MIN_ENTRIES;
use errai::types::InternalPid;

type Table = ProcessTable<usize>;

fn write(value: usize) -> impl FnOnce(InternalPid) -> usize {
    move |_pid| value
}

#[test]
fn test_capacity_min() {
    let table: Table = Table::with_capacity(usize::MIN);
    assert_eq!(table.capacity(), MIN_ENTRIES);
}

#[test]
fn test_capacity_max() {
    let table: Table = Table::with_capacity(usize::MAX);
    assert_eq!(table.capacity(), MAX_ENTRIES);
}

#[test]
fn test_actual_capacity() {
    for capacity in MIN_ENTRIES..=MAX_ENTRIES {
        assert_eq!(actual_capacity(capacity), capacity.next_power_of_two());
    }
}

#[test]
fn test_id_mapping() {
    let table: Table = Table::new();
    let layout = table.layout();
    for index in 0..table.capacity() * 3 {
        let real: u64 = layout.base_index_to_real_index(index as u64);
        let data: u64 = layout.base_index_to_pid_data(index as u64);
        let rpid: InternalPid = layout.base_index_to_pid(index as u64);
        assert_eq!(layout.pid_data_to_base_index(data), index as u64);
        assert_eq!(layout.pid_data_to_real_index(data), real);
        assert_eq!(layout.pid_to_real_index(rpid), real);
        assert_eq!(layout.pid_to_base_index(rpid), index as u64);
    }
}

#[test]
fn id_cycle_through_slots() {
    let mut table: ProcessTable<InternalPid> = ProcessTable::with_capacity(16);
    for index in 0..table.capacity() * 3 {
        let item: Arc<InternalPid> = table.insert(|pid| pid).unwrap();
        let pid: InternalPid = *item;
        assert_eq!(table.translate_pid(pid), (index as u32, 0));
        assert!(table.contains(pid));
        assert_eq!(table.get(pid).map(|item| *item), Some(pid));
        assert_eq!(table.remove(pid).map(|item| *item), Some(pid));
        assert!(!table.contains(pid));
    }
}

#[test]
fn test_new_table() {
    let table: Table = Table::with_capacity(1 << 6);
    assert_eq!(table.capacity(), 1 << 6);
    assert_eq!(table.len(), 0);
    assert_eq!(table.is_empty(), true);
}

#[test]
fn test_is_empty() {
    let mut table: Table = Table::new();
    assert_eq!(table.is_empty(), true);
    table.insert(write(10)).unwrap();
    assert_eq!(table.is_empty(), false);
}

#[test]
fn test_insert() {
    let mut table: Table = Table::new();
    let _item: Arc<usize> = table.insert(write(1)).unwrap();
    let _item: Arc<usize> = table.insert(write(2)).unwrap();
    assert_eq!(table.len(), 2);
    assert_eq!(table.is_empty(), false);
}

#[test]
fn test_keys() {
    let mut table: Table = Table::new();
    let _item: Arc<usize> = table.insert(write(1)).unwrap();
    let _item: Arc<usize> = table.insert(write(2)).unwrap();
    let keys: Vec<InternalPid> = table.keys();
    assert_eq!(keys.len(), 2);
}

#[test]
fn table_default_capacity() {
    let table: Table = Table::new();
    assert_eq!(table.capacity(), DEF_ENTRIES);
}

#[test]
fn table_full_after_capacity_inserts() {
    let mut table: Table = Table::with_capacity(16);
    for value in 0..16 {
        assert!(table.insert(write(value)).is_ok());
    }
    assert_eq!(table.len(), 16);
    assert_eq!(table.insert(write(99)).unwrap_err(), ProcessTableFull);
    assert_eq!(ProcessTableFull.to_string(), "too many processes");
}

#[test]
fn table_remove_frees_slot_with_new_serial() {
    let mut table: ProcessTable<InternalPid> = ProcessTable::with_capacity(16);
    let first: InternalPid = *table.insert(|pid| pid).unwrap();
    assert_eq!(table.translate_pid(first), (0, 0));
    assert_eq!(table.remove(first).map(|item| *item), Some(first));
    assert_eq!(table.remove(first), None);
    for _ in 0..15 {
        table.insert(|pid| pid).unwrap();
    }
    let reused: InternalPid = *table.insert(|pid| pid).unwrap();
    assert_eq!(table.translate_pid(reused), (16, 0));
    assert_ne!(reused, first);
    assert!(table.has(0));
    assert!(!table.has(16));
}

#[test]
fn table_get_after_insert() {
    let mut table: ProcessTable<(InternalPid, usize)> = ProcessTable::with_capacity(32);
    let mut pids: Vec<InternalPid> = Vec::new();
    for value in 0..5usize {
        let item = table.insert(|pid| (pid, value * 10)).unwrap();
        pids.push(item.0);
    }
    assert_eq!(table.len(), 5);
    for (index, pid) in pids.iter().enumerate() {
        assert_eq!(table.get(*pid).map(|item| item.1), Some(index * 10));
    }
    assert_eq!(table.keys(), pids);
}

#[test]
fn keys_list_reissued_pids() {
    let mut table: ProcessTable<InternalPid> = ProcessTable::with_capacity(16);
    let mut pids: Vec<InternalPid> = Vec::new();
    for _ in 0..16 {
        pids.push(*table.insert(|pid| pid).unwrap());
    }
    assert!(table.insert(|pid| pid).is_err());
    let first: InternalPid = pids[0];
    assert_eq!(table.remove(first).map(|item| *item), Some(first));
    let again: InternalPid = *table.insert(|pid| pid).unwrap();
    assert_ne!(again, first);
    assert_eq!(table.translate_pid(again).0, table.translate_pid(first).0 + 16);
    assert_eq!(table.issued_pid(first), Some(again));
    assert_eq!(table.issued_pid(again), Some(again));
    let keys: Vec<InternalPid> = table.keys();
    assert_eq!(keys.len(), 16);
    assert!(keys.contains(&again));
    assert!(!keys.contains(&first));
    for pid in &pids[1..] {
        assert!(keys.contains(pid));
    }
}

#[test]
fn new_tables_count_nothing() {
    let small: Table = Table::with_capacity(16);
    assert_eq!(small.len(), 0);
    assert!(small.is_empty());
    assert!(small.keys().is_empty());
}
