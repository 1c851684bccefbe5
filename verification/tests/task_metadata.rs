//! Task ids and worker ids.

use dial9_tokio_telemetry::telemetry::format::{WorkerId, BLOCKING_WORKER, UNKNOWN_WORKER};
use dial9_tokio_telemetry::telemetry::task_metadata::{TaskId, UNKNOWN_TASK_ID};
use std::collections::HashSet;

#[test]
fn integration_test() {
    // Basic integration test
    assert!(true);
}

#[test]
fn test_task_id_default() {
    let id = TaskId::default();
    assert_eq!(id, TaskId::from_u64(UNKNOWN_TASK_ID));
    assert_eq!(id.to_u32(), 0);
}

#[test]
fn test_task_id_roundtrip() {
    let task_id = TaskId::from_u32(12345);
    assert_eq!(task_id.to_u32(), 12345);
}

#[test]
fn test_task_id_hash() {
    let mut set = HashSet::new();
    let id1 = TaskId::from_u32(1);
    let id2 = TaskId::from_u32(2);
    set.insert(id1);
    set.insert(id2);
    assert!(set.contains(&id1));
    assert!(!set.contains(&TaskId::from_u32(3)));
}

#[test]
fn task_id_keeps_low_bits() {
    assert_eq!(TaskId::from_u64(0x1_0000_0007).to_u32(), 7);
    assert_eq!(TaskId::from_u64(u64::MAX).as_u64(), u64::MAX);
}

#[test]
fn worker_ids_have_sentinels() {
    assert_eq!(WorkerId::unknown().as_u64(), UNKNOWN_WORKER);
    assert_eq!(WorkerId::blocking().as_u64(), BLOCKING_WORKER);
    assert_eq!(WorkerId::from(7usize).as_u64(), 7);
    assert_eq!(WorkerId::from(7u8).as_u64(), 7);
    assert_eq!(WorkerId::from(41usize).text(), "41");
}
