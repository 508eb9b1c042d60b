use loom::order::{ordering_name, parse_ordering, weaker, MemoryOrder};

const ALL: [MemoryOrder; 5] = [
    MemoryOrder::Relaxed,
    MemoryOrder::Acquire,
    MemoryOrder::Release,
    MemoryOrder::AcqRel,
    MemoryOrder::SeqCst,
];

#[test]
fn names_of_orderings_read_back() {
    for order in ALL {
        assert_eq!(parse_ordering(ordering_name(order)), Some(order));
        assert_eq!(ordering_name(order), format!("{order:?}"));
    }
}

#[test]
fn unknown_orderings_are_rejected() {
    for s in ["", "relaxed", "Acquire ", "Consume", "SeqCs", "AcquireRelease"] {
        assert_eq!(parse_ordering(s), None);
    }
}

#[test]
fn orderings_are_weakened_one_step() {
    assert_eq!(
        weaker(MemoryOrder::SeqCst),
        &[MemoryOrder::AcqRel, MemoryOrder::Acquire, MemoryOrder::Release]
    );
    assert_eq!(weaker(MemoryOrder::AcqRel), &[MemoryOrder::Acquire, MemoryOrder::Release]);
    assert_eq!(weaker(MemoryOrder::Acquire), &[MemoryOrder::Relaxed]);
    assert_eq!(weaker(MemoryOrder::Release), &[MemoryOrder::Relaxed]);
    assert!(weaker(MemoryOrder::Relaxed).is_empty());
}
