//! Mock implementation of `std::sync::atomic`.

use vstd::prelude::*;

use crate::downgrade::slot::Slot;
use crate::downgrade::{applied, apply, mode_after, mode_of, Downgrade};
use crate::order::{name, ordering_name, MemoryOrder};
use crate::rt::Location;

#[allow(clippy::module_inception)]
pub mod atomic;
pub mod calls;
pub mod laws;

verus! {

/// What the scheduler of a model is asked for.
#[derive(Debug, Copy, Clone, PartialEq, Eq, Structural)]
pub enum Scheduling {
    /// Let the other threads run.
    Yield,
}

/// Signals the processor that it is entering a busy-wait spin-loop.
///
/// In a model, it yields to the other threads, like `yield_now` does.
pub fn spin_loop_hint() -> (asked: Scheduling)
    ensures
        asked == Scheduling::Yield,
{
    Scheduling::Yield
}

/// What becomes of a fence.
#[derive(Debug, Copy, Clone, PartialEq, Eq, Structural)]
pub enum Fence {
    /// The runtime performs it with that ordering, or rejects it if it is `Relaxed`.
    Perform { order: MemoryOrder },
    /// It is not performed, `order` being the ordering that it was given.
    Remove { order: MemoryOrder },
}

/// The trace of a fence.
pub open spec fn fence_text(fence: Fence) -> Seq<char> {
    match fence {
        Fence::Perform { order } => "fence("@ + name(order) + ")"@,
        Fence::Remove { order } => "fence("@ + name(order) + ") [removed]"@,
    }
}

impl Fence {
    /// The line that traces the fence.
    pub fn line(&self) -> (line: String)
        ensures
            line@ == fence_text(*self),
    {
        let mut line = String::new();
        line.append("fence(");
        match self {
            Fence::Perform { order } => {
                line.append(ordering_name(*order));
                line.append(")");
            },
            Fence::Remove { order } => {
                line.append(ordering_name(*order));
                line.append(") [removed]");
            },
        }
        proof {
            assert(line@ =~= fence_text(*self));
        }
        line
    }
}

/// An atomic fence.
///
/// A fence is downgradable like any atomic operation, see [`crate::downgrade`].
pub fn fence(
    downgrade: &mut Option<Downgrade>,
    location: &Location<'static>,
    order: MemoryOrder,
) -> (fence: Fence)
    ensures
        ({
            let used = applied(mode_of(*old(downgrade)), location@, Slot::Single, order);
            fence == if used is Relaxed && !(order is Relaxed) {
                Fence::Remove { order }
            } else {
                Fence::Perform { order: used }
            }
        }),
        mode_of(*final(downgrade)) == mode_after(
            mode_of(*old(downgrade)),
            location@,
            Slot::Single,
            order,
        ),
{
    let downgraded: MemoryOrder = apply(downgrade, location, order, Slot::Single);
    // There is no such thing as a relaxed fence, so a fence downgraded to `Relaxed` is
    // removed. An ordering which was already `Relaxed` is not downgraded, and the runtime
    // still rejects it.
    if downgraded == MemoryOrder::Relaxed && order != MemoryOrder::Relaxed {
        Fence::Remove { order }
    } else {
        Fence::Perform { order: downgraded }
    }
}

} // verus!
