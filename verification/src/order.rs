//! The memory orderings of atomic operations.

use vstd::prelude::*;

use crate::text::{is_one_line, same_text};

verus! {

/// A memory ordering, as in `std::sync::atomic`.
#[derive(Debug, Copy, Clone, PartialEq, Eq, Structural)]
pub enum MemoryOrder {
    Relaxed,
    Acquire,
    Release,
    AcqRel,
    SeqCst,
}

/// The name of an ordering, which is also its `Debug` text.
pub open spec fn name(order: MemoryOrder) -> Seq<char> {
    match order {
        MemoryOrder::Relaxed => "Relaxed"@,
        MemoryOrder::Acquire => "Acquire"@,
        MemoryOrder::Release => "Release"@,
        MemoryOrder::AcqRel => "AcqRel"@,
        MemoryOrder::SeqCst => "SeqCst"@,
    }
}

/// The ordering that a name stands for.
pub open spec fn named(s: Seq<char>) -> Option<MemoryOrder> {
    if s == "Relaxed"@ {
        Some(MemoryOrder::Relaxed)
    } else if s == "Acquire"@ {
        Some(MemoryOrder::Acquire)
    } else if s == "Release"@ {
        Some(MemoryOrder::Release)
    } else if s == "AcqRel"@ {
        Some(MemoryOrder::AcqRel)
    } else if s == "SeqCst"@ {
        Some(MemoryOrder::SeqCst)
    } else {
        None
    }
}

/// The orderings that an ordering can be downgraded to, in the order in which they are tried.
pub open spec fn downgrades_of(order: MemoryOrder) -> Seq<MemoryOrder> {
    match order {
        MemoryOrder::SeqCst => seq![
            MemoryOrder::AcqRel,
            MemoryOrder::Acquire,
            MemoryOrder::Release,
        ],
        MemoryOrder::AcqRel => seq![MemoryOrder::Acquire, MemoryOrder::Release],
        MemoryOrder::Acquire | MemoryOrder::Release => seq![MemoryOrder::Relaxed],
        MemoryOrder::Relaxed => seq![],
    }
}

/// What an atomic operation does to memory, which decides the orderings it can have.
pub enum OperationKind {
    Load,
    Store,
    ReadModifyWrite,
    /// A fence without ordering is no fence at all.
    Fence,
}

pub open spec fn acquires(order: MemoryOrder) -> bool {
    order is Acquire || order is AcqRel || order is SeqCst
}

pub open spec fn releases(order: MemoryOrder) -> bool {
    order is Release || order is AcqRel || order is SeqCst
}

/// Whether `a` guarantees strictly less than `b`.
pub open spec fn is_weaker(a: MemoryOrder, b: MemoryOrder) -> bool {
    &&& a != b
    &&& acquires(a) ==> acquires(b)
    &&& releases(a) ==> releases(b)
    &&& a is SeqCst ==> b is SeqCst
}

/// Whether an operation of that kind can have that ordering: a load has nothing to release,
/// and a store has nothing to acquire.
pub open spec fn suits(kind: OperationKind, order: MemoryOrder) -> bool {
    match kind {
        OperationKind::Load => !(order is Release) && !(order is AcqRel),
        OperationKind::Store => !(order is Acquire) && !(order is AcqRel),
        OperationKind::ReadModifyWrite => true,
        OperationKind::Fence => true,
    }
}

/// Whether `to` is one step weaker than `from` for that kind of operation, i.e. weaker with
/// no other ordering of the operation in between.
pub open spec fn is_one_step_weaker(
    kind: OperationKind,
    from: MemoryOrder,
    to: MemoryOrder,
) -> bool {
    &&& suits(kind, from)
    &&& suits(kind, to)
    &&& is_weaker(to, from)
    &&& forall|mid: MemoryOrder| !#[trigger] is_between(kind, from, mid, to)
}

/// Whether `mid` is an ordering of that kind of operation, weaker than `from` and not as weak
/// as `to`.
pub open spec fn is_between(
    kind: OperationKind,
    from: MemoryOrder,
    mid: MemoryOrder,
    to: MemoryOrder,
) -> bool {
    suits(kind, mid) && is_weaker(to, mid) && is_weaker(mid, from)
}

/// The ordering called `s`.
pub fn parse_ordering(s: &str) -> (order: Option<MemoryOrder>)
    ensures
        order == named(s@),
{
    if same_text(s, "Relaxed") {
        Some(MemoryOrder::Relaxed)
    } else if same_text(s, "Acquire") {
        Some(MemoryOrder::Acquire)
    } else if same_text(s, "Release") {
        Some(MemoryOrder::Release)
    } else if same_text(s, "AcqRel") {
        Some(MemoryOrder::AcqRel)
    } else if same_text(s, "SeqCst") {
        Some(MemoryOrder::SeqCst)
    } else {
        None
    }
}

/// The name of an ordering.
pub fn ordering_name(order: MemoryOrder) -> (s: &'static str)
    ensures
        s@ == name(order),
{
    match order {
        MemoryOrder::Relaxed => "Relaxed",
        MemoryOrder::Acquire => "Acquire",
        MemoryOrder::Release => "Release",
        MemoryOrder::AcqRel => "AcqRel",
        MemoryOrder::SeqCst => "SeqCst",
    }
}

/// The orderings that an ordering can be downgraded to, one step weaker only: `Acquire` and
/// `Release` together are weaker than `AcqRel` in both directions, so if downgrading to them
/// is caught, so is downgrading to `Relaxed`. `Relaxed` is nonetheless a downgrade of
/// `Acquire` and `Release`, and removes a fence.
pub fn weaker(order: MemoryOrder) -> (orders: &'static [MemoryOrder])
    ensures
        orders@ == downgrades_of(order),
{
    match order {
        MemoryOrder::SeqCst => &[MemoryOrder::AcqRel, MemoryOrder::Acquire, MemoryOrder::Release],
        MemoryOrder::AcqRel => &[MemoryOrder::Acquire, MemoryOrder::Release],
        MemoryOrder::Acquire | MemoryOrder::Release => &[MemoryOrder::Relaxed],
        MemoryOrder::Relaxed => &[],
    }
}

/// The name of an ordering reads back as that ordering.
pub proof fn law_name_reads_back(order: MemoryOrder)
    ensures
        named(name(order)) == Some(order),
{
    reveal_strlit("Relaxed");
    reveal_strlit("Acquire");
    reveal_strlit("Release");
    reveal_strlit("AcqRel");
    reveal_strlit("SeqCst");
    assert("Relaxed"@.len() == 7 && "Acquire"@.len() == 7 && "Release"@.len() == 7);
    assert("AcqRel"@.len() == 6 && "SeqCst"@.len() == 6);
    assert("Relaxed"@[3] != "Release"@[3]);
    assert("Relaxed"@[0] != "Acquire"@[0]);
    assert("Release"@[0] != "Acquire"@[0]);
    assert("AcqRel"@[0] != "SeqCst"@[0]);
}

/// Two orderings with one name are the same ordering.
pub proof fn law_names_differ(a: MemoryOrder, b: MemoryOrder)
    requires
        name(a) == name(b),
    ensures
        a == b,
{
    law_name_reads_back(a);
    law_name_reads_back(b);
}

/// An ordering is downgraded one step only: to the orderings that are one step weaker for
/// some operation that can have it, each of them once, and to no other.
pub proof fn law_downgrades_are_one_step(from: MemoryOrder, to: MemoryOrder)
    ensures
        downgrades_of(from).contains(to) <==> exists|kind: OperationKind|
            #[trigger] is_one_step_weaker(kind, from, to),
        downgrades_of(from).no_duplicates(),
{
    let downgrades = downgrades_of(from);
    if downgrades.contains(to) {
        assert(is_one_step_weaker(witness_kind(from, to), from, to));
    }
    if exists|kind: OperationKind| #[trigger] is_one_step_weaker(kind, from, to) {
        let kind = choose|kind: OperationKind| #[trigger] is_one_step_weaker(kind, from, to);
        assert(!is_between(kind, from, MemoryOrder::Acquire, to));
        assert(!is_between(kind, from, MemoryOrder::Release, to));
        assert(!is_between(kind, from, MemoryOrder::AcqRel, to));
        assert(downgrades.len() > 0);
        assert(downgrades.contains(downgrades[0]));
        if downgrades.len() > 1 {
            assert(downgrades.contains(downgrades[1]));
        }
        if downgrades.len() > 2 {
            assert(downgrades.contains(downgrades[2]));
        }
    }
}

/// An operation for which `to` is one step weaker than `from`, where there is one.
spec fn witness_kind(from: MemoryOrder, to: MemoryOrder) -> OperationKind {
    if from is SeqCst && to is Acquire {
        OperationKind::Load
    } else if from is SeqCst && to is Release {
        OperationKind::Store
    } else {
        OperationKind::ReadModifyWrite
    }
}

/// Every weaker ordering is reached by downgrades: it is one, or it is weaker than one.
pub proof fn law_downgrades_reach_every_weaker_ordering(from: MemoryOrder, to: MemoryOrder)
    requires
        is_weaker(to, from),
    ensures
        downgrades_of(from).contains(to) || exists|mid: MemoryOrder|
            downgrades_of(from).contains(mid) && #[trigger] is_weaker(to, mid),
{
    let downgrades = downgrades_of(from);
    assert(downgrades.contains(downgrades[0]));
    if downgrades.len() > 1 {
        assert(downgrades.contains(downgrades[1]));
    }
    if downgrades.len() > 2 {
        assert(downgrades.contains(downgrades[2]));
    }
    assert(is_weaker(to, downgrades[0]) || downgrades.contains(to));
}

/// Only `Relaxed` cannot be weakened.
pub proof fn law_only_relaxed_has_no_downgrade(order: MemoryOrder)
    ensures
        downgrades_of(order).len() == 0 <==> order is Relaxed,
{
}

/// The name of an ordering is part of one line.
pub proof fn lemma_name_is_one_line(order: MemoryOrder)
    ensures
        is_one_line(name(order)),
{
    reveal_strlit("Relaxed");
    reveal_strlit("Acquire");
    reveal_strlit("Release");
    reveal_strlit("AcqRel");
    reveal_strlit("SeqCst");
}

/// A text stands for an ordering exactly when it is its name, as `std::sync::atomic` has it, and
/// an ordering is written by that name.
pub proof fn law_orderings_have_their_names(s: Seq<char>)
    ensures
        named(s) == Some(MemoryOrder::Relaxed) <==> s == "Relaxed"@,
        named(s) == Some(MemoryOrder::Acquire) <==> s == "Acquire"@,
        named(s) == Some(MemoryOrder::Release) <==> s == "Release"@,
        named(s) == Some(MemoryOrder::AcqRel) <==> s == "AcqRel"@,
        named(s) == Some(MemoryOrder::SeqCst) <==> s == "SeqCst"@,
        forall|order: MemoryOrder| named(s) == Some(order) <==> s == #[trigger] name(order),
{
    law_name_reads_back(MemoryOrder::Relaxed);
    law_name_reads_back(MemoryOrder::Acquire);
    law_name_reads_back(MemoryOrder::Release);
    law_name_reads_back(MemoryOrder::AcqRel);
    law_name_reads_back(MemoryOrder::SeqCst);
    assert forall|order: MemoryOrder| named(s) == Some(order) <==> s == #[trigger] name(order) by {
        law_name_reads_back(order);
    }
}

/// The downgrades are tried from the strongest one, and one that acquires before one that
/// releases.
pub proof fn law_downgrades_are_tried_in_order(from: MemoryOrder, i: int, j: int)
    requires
        0 <= i < j < downgrades_of(from).len(),
    ensures
        is_weaker(downgrades_of(from)[j], downgrades_of(from)[i]) || downgrades_of(from)[i]
            is Acquire && downgrades_of(from)[j] is Release,
{
}

/// What acquires, what releases, and what is in the single total order.
pub proof fn law_guarantees_of_the_orderings(order: MemoryOrder)
    ensures
        !acquires(order) && !releases(order) <==> order is Relaxed,
        acquires(order) && !releases(order) <==> order is Acquire,
        releases(order) && !acquires(order) <==> order is Release,
        acquires(order) && releases(order) <==> order is AcqRel || order is SeqCst,
{
}

/// An ordering is read from its name, and its name is the one that it is read from.
pub proof fn law_ordering_is_read_from_its_name(
    s: &str,
    read: Option<MemoryOrder>,
    order: MemoryOrder,
    written: &'static str,
)
    requires
        call_ensures(parse_ordering, (s,), read),
        call_ensures(ordering_name, (order,), written),
    ensures
        read == Some(order) <==> s@ == written@,
{
    law_orderings_have_their_names(s@);
}

/// The orderings that an ordering is weakened to are weaker, and one step so for some operation.
pub proof fn law_orderings_are_weakened_by_one_step(
    from: MemoryOrder,
    orders: &'static [MemoryOrder],
    to: MemoryOrder,
)
    requires
        call_ensures(weaker, (from,), orders),
    ensures
        orders@.contains(to) <==> exists|kind: OperationKind| #[trigger]
            is_one_step_weaker(kind, from, to),
        orders@.no_duplicates(),
{
    law_downgrades_are_one_step(from, to);
}

} // verus!
