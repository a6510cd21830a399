//! Tests of the self-test gate, the boot-service-exit negotiation and the
//! memory-map filter.

use lotus_loader::handoff::{
    entry_from_descriptor, filter_memory_map, kind_from_code, memory_map_plausible,
    self_test_passed, ExitEvent, MemoryKind, MemoryMapEntry, Negotiator, NegotiatorAction,
    NegotiatorState, BUFFER_HEADROOM, SELF_TEST_SENTINEL,
};

#[test]
fn self_test_accepts_only_the_sentinel() {
    assert!(self_test_passed(0xFFFFFFFFFFFFFFFF));
    assert!(!self_test_passed(0));
    assert!(!self_test_passed(0xFFFFFFFFFFFFFFFE));
}

#[test]
fn failed_self_test_never_reaches_negotiation() {
    assert!(Negotiator::begin(SELF_TEST_SENTINEL, 3).is_some());
    assert!(Negotiator::begin(0x1234, 3).is_none());
    assert!(Negotiator::begin(0, 3).is_none());
}

#[test]
fn negotiation_happy_path() {
    let mut n = Negotiator::begin(SELF_TEST_SENTINEL, 3).unwrap();
    assert_eq!(n.state, NegotiatorState::Querying);
    let a = n.step(ExitEvent::SizeReported { size: 1000 });
    assert_eq!(a, NegotiatorAction::AllocateBuffer { len: 1000 + BUFFER_HEADROOM });
    assert_eq!(n.state, NegotiatorState::Allocating { required: 1000 + BUFFER_HEADROOM });
    let a = n.step(ExitEvent::BufferAllocated);
    assert_eq!(a, NegotiatorAction::AttemptExit);
    let a = n.step(ExitEvent::ExitSucceeded);
    assert_eq!(a, NegotiatorAction::CollectMap);
    assert_eq!(n.state, NegotiatorState::Captured);
}

#[test]
fn negotiation_retries_with_at_least_the_reported_size() {
    let mut n = Negotiator::begin(SELF_TEST_SENTINEL, 3).unwrap();
    n.step(ExitEvent::SizeReported { size: 1000 });
    n.step(ExitEvent::BufferAllocated);
    // First exit attempt fails: the map grew to 5000 bytes.
    let a = n.step(ExitEvent::ExitBufferTooSmall { required: 5000 });
    match a {
        NegotiatorAction::AllocateBuffer { len } => assert!(len >= 5000),
        other => panic!("expected an allocation, got {:?}", other),
    }
    assert_eq!(n.attempts_left, 2);
    n.step(ExitEvent::BufferAllocated);
    let a = n.step(ExitEvent::ExitSucceeded);
    assert_eq!(a, NegotiatorAction::CollectMap);
    assert_eq!(n.state, NegotiatorState::Captured);
}

#[test]
fn negotiation_fails_when_retries_run_out() {
    let mut n = Negotiator::begin(SELF_TEST_SENTINEL, 1).unwrap();
    n.step(ExitEvent::SizeReported { size: 100 });
    n.step(ExitEvent::BufferAllocated);
    n.step(ExitEvent::ExitBufferTooSmall { required: 200 });
    assert_eq!(n.attempts_left, 0);
    n.step(ExitEvent::BufferAllocated);
    let a = n.step(ExitEvent::ExitBufferTooSmall { required: 300 });
    assert_eq!(a, NegotiatorAction::Halt);
    assert_eq!(n.state, NegotiatorState::Failed);
}

#[test]
fn negotiation_fails_on_mismatched_event() {
    let mut n = Negotiator::begin(SELF_TEST_SENTINEL, 3).unwrap();
    let a = n.step(ExitEvent::ExitSucceeded);
    assert_eq!(a, NegotiatorAction::Halt);
    assert_eq!(n.state, NegotiatorState::Failed);
}

#[test]
fn kind_codes_map_to_the_kinds_of_interest() {
    assert_eq!(kind_from_code(3), MemoryKind::BootServicesCode);
    assert_eq!(kind_from_code(4), MemoryKind::BootServicesData);
    assert_eq!(kind_from_code(7), MemoryKind::Conventional);
    assert_eq!(kind_from_code(9), MemoryKind::AcpiReclaim);
    assert_eq!(kind_from_code(10), MemoryKind::AcpiNonVolatile);
    assert_eq!(kind_from_code(0), MemoryKind::Other);
    assert_eq!(kind_from_code(5), MemoryKind::Other);
}

#[test]
fn descriptor_entries_are_page_sized() {
    let e = entry_from_descriptor(0x1000, 3, 7).unwrap();
    assert_eq!(e.physical_start, 0x1000);
    assert_eq!(e.physical_end, 0x1000 + 3 * 4096);
    assert_eq!(e.kind, MemoryKind::Conventional);
    assert!(entry_from_descriptor(u64::MAX, 1, 7).is_none());
}

#[test]
fn memory_map_filter_keeps_order_and_drops_the_rest() {
    let entries = vec![
        MemoryMapEntry { physical_start: 0, physical_end: 0x1000, kind: MemoryKind::Conventional },
        MemoryMapEntry { physical_start: 0x1000, physical_end: 0x2000, kind: MemoryKind::Other },
        MemoryMapEntry {
            physical_start: 0x2000,
            physical_end: 0x3000,
            kind: MemoryKind::BootServicesData,
        },
        MemoryMapEntry {
            physical_start: 0x3000,
            physical_end: 0x4000,
            kind: MemoryKind::AcpiReclaim,
        },
    ];
    let kept = filter_memory_map(&entries);
    assert_eq!(kept.len(), 3);
    assert_eq!(kept[0].physical_start, 0);
    assert_eq!(kept[1].physical_start, 0x2000);
    assert_eq!(kept[2].physical_start, 0x3000);
}

#[test]
fn memory_map_plausibility_checks_first_entry() {
    let good = vec![MemoryMapEntry {
        physical_start: 0,
        physical_end: 0x1000,
        kind: MemoryKind::Conventional,
    }];
    assert!(memory_map_plausible(&good));
    let empty: Vec<MemoryMapEntry> = Vec::new();
    assert!(!memory_map_plausible(&empty));
    let shifted = vec![MemoryMapEntry {
        physical_start: 0x1000,
        physical_end: 0x2000,
        kind: MemoryKind::Conventional,
    }];
    assert!(!memory_map_plausible(&shifted));
    let degenerate = vec![MemoryMapEntry {
        physical_start: 0,
        physical_end: 0,
        kind: MemoryKind::Conventional,
    }];
    assert!(!memory_map_plausible(&degenerate));
}
