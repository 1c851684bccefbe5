//! The memory profile: sampled allocations and their frees.

use dial9_tokio_telemetry::memory_profiling::ring::{RawAlloc, RawFree, RingBuffers, MAX_FRAMES};
use dial9_tokio_telemetry::memory_profiling::source::{MemoryEvent, MemoryProfileSource};

fn make_raw_alloc(addr: u64, size: u64, ts_ns: u64) -> RawAlloc {
    let mut frames = [0u64; MAX_FRAMES];
    frames[0] = 0xAAAA;
    frames[1] = 0xBBBB;
    frames[2] = 0xCCCC;
    RawAlloc { tid: 1, size, addr, ts_ns, frames, frame_count: 3 }
}

fn make_raw_free(addr: u64, ts_ns: u64) -> RawFree {
    RawFree {
        tid: 2,
        addr,
        size: 0, // size on the free side is informational; the liveset is used
        ts_ns,
    }
}

fn is_alloc(e: &MemoryEvent) -> bool {
    matches!(e, MemoryEvent::Alloc { .. })
}

fn is_free(e: &MemoryEvent) -> bool {
    matches!(e, MemoryEvent::Free { .. })
}

#[test]
fn source_emits_alloc_event() {
    let mut rings = RingBuffers::new(16, 16);
    rings.push_alloc(make_raw_alloc(0x1000, 4096, 100));
    let mut source = MemoryProfileSource::new(rings, false);

    let events = source.flush();
    let allocs: Vec<_> = events.iter().filter(|e| is_alloc(e)).collect();
    assert_eq!(allocs.len(), 1);
    match &allocs[0] {
        MemoryEvent::Alloc { timestamp_nanos, tid, size, addr, callchain } => {
            assert_eq!(*timestamp_nanos, 100);
            assert_eq!(*tid, 1);
            assert_eq!(*size, 4096);
            assert_eq!(*addr, 0x1000);
            assert_eq!(callchain, &[0xAAAA, 0xBBBB, 0xCCCC]);
        }
        _ => unreachable!(),
    }
}

#[test]
fn source_emits_free_event_for_matching_alloc() {
    let mut rings = RingBuffers::new(16, 16);
    rings.push_alloc(make_raw_alloc(0x2000, 512, 200));
    rings.push_free(make_raw_free(0x2000, 300));
    let mut source = MemoryProfileSource::new(rings, true);

    let events = source.flush();
    let allocs: Vec<_> = events.iter().filter(|e| is_alloc(e)).collect();
    let frees: Vec<_> = events.iter().filter(|e| is_free(e)).collect();
    assert_eq!(allocs.len(), 1);
    assert_eq!(frees.len(), 1);
    match &frees[0] {
        MemoryEvent::Free { timestamp_nanos, tid, addr, size, alloc_timestamp_nanos } => {
            assert_eq!(*timestamp_nanos, 300);
            assert_eq!(*tid, 2);
            assert_eq!(*addr, 0x2000);
            assert_eq!(*size, 512);
            assert_eq!(*alloc_timestamp_nanos, 200);
        }
        _ => unreachable!(),
    }
}

#[test]
fn free_without_alloc_is_silently_dropped() {
    let mut rings = RingBuffers::new(16, 16);
    rings.push_free(make_raw_free(0x9999, 400));
    let mut source = MemoryProfileSource::new(rings, true);

    let events = source.flush();
    assert_eq!(events.iter().filter(|e| is_free(e)).count(), 0);
}

#[test]
fn liveset_off_drops_all_frees() {
    let mut rings = RingBuffers::new(16, 16);
    rings.push_alloc(make_raw_alloc(0x3000, 128, 500));
    rings.push_free(make_raw_free(0x3000, 600));
    let mut source = MemoryProfileSource::new(rings, false);

    let events = source.flush();
    assert_eq!(events.iter().filter(|e| is_alloc(e)).count(), 1);
    assert_eq!(events.iter().filter(|e| is_free(e)).count(), 0);
}

#[test]
fn alloc_then_free_in_separate_flush_cycles() {
    let mut source = MemoryProfileSource::new(RingBuffers::new(16, 16), true);

    // First flush: only the alloc
    source.push_alloc(make_raw_alloc(0x4000, 256, 700));
    let events = source.flush();
    assert_eq!(events.iter().filter(|e| is_alloc(e)).count(), 1);
    assert_eq!(events.iter().filter(|e| is_free(e)).count(), 0);

    // Second flush: the free arrives
    source.push_free(make_raw_free(0x4000, 800));
    let events = source.flush();
    assert_eq!(events.iter().filter(|e| is_alloc(e)).count(), 0);
    let frees: Vec<_> = events.iter().filter(|e| is_free(e)).collect();
    assert_eq!(frees.len(), 1);
    match &frees[0] {
        MemoryEvent::Free { size, alloc_timestamp_nanos, .. } => {
            assert_eq!(*size, 256);
            assert_eq!(*alloc_timestamp_nanos, 700);
        }
        _ => unreachable!(),
    }
}

#[test]
fn second_free_of_an_address_is_dropped() {
    let mut source = MemoryProfileSource::new(RingBuffers::new(16, 16), true);
    source.push_alloc(make_raw_alloc(0x10, 1, 1));
    source.push_free(make_raw_free(0x10, 2));
    source.push_free(make_raw_free(0x10, 3));
    let events = source.flush();
    assert_eq!(events.iter().filter(|e| is_free(e)).count(), 1);
}

#[test]
fn full_queues_count_what_they_drop() {
    let mut source = MemoryProfileSource::new(RingBuffers::new(1, 2), true);
    for i in 0..3 {
        source.push_alloc(make_raw_alloc(0x10 + i, 1, i));
        source.push_free(make_raw_free(0x10 + i, i));
    }
    assert_eq!(source.dropped(), (2, 1));
    assert_eq!(source.name(), "memory");
    // The one allocation that was kept is freed; the other free has no match.
    let events = source.flush();
    assert_eq!(events.iter().filter(|e| is_alloc(e)).count(), 1);
    assert_eq!(events.iter().filter(|e| is_free(e)).count(), 1);
}

#[test]
fn queues_hand_out_oldest_first() {
    let mut rings = RingBuffers::new(4, 4);
    for i in 0..3 {
        rings.push_alloc(make_raw_alloc(i, 10 * i, i));
        rings.push_free(make_raw_free(i, i));
    }
    assert_eq!(rings.pop_alloc().unwrap().addr, 0);
    assert_eq!(rings.pop_alloc().unwrap().addr, 1);
    assert_eq!(rings.pop_free().unwrap().addr, 0);
    assert_eq!(rings.dropped_allocs(), 0);
    assert_eq!(rings.dropped_frees(), 0);
    assert_eq!(rings.pop_alloc().unwrap().frames(), [0xAAAA, 0xBBBB, 0xCCCC]);
    assert!(rings.pop_alloc().is_none());
}
