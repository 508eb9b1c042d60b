//! The operations of an atomic object.
//!
//! An operation is performed by the runtime, which may run other threads meanwhile, between
//! two steps of the front end. The first one decides what the runtime is asked for, i.e. the
//! orderings that the operation actually uses, see [`crate::downgrade`]. The second one makes
//! the line that traces the operation out of the reply, see [`crate::trace`].

use vstd::prelude::*;

use crate::downgrade::slot::Slot;
use crate::downgrade::{applied, apply, mode_after, mode_of, Downgrade, Mode};
use crate::order::{name, ordering_name, MemoryOrder};
use crate::rt::{Location, Numeric, Place};

verus! {

/// The trace of a load that is not synchronized.
pub open spec fn unsync_load_text<T: Numeric>(reply: T) -> Seq<char> {
    "unsync_load() -> "@ + reply.debug()
}

/// The trace of a load.
pub open spec fn load_text<T: Numeric>(order: MemoryOrder, reply: T) -> Seq<char> {
    "load("@ + name(order) + ") -> "@ + reply.debug()
}

/// The trace of a store.
pub open spec fn store_text<T: Numeric>(value: T, order: MemoryOrder) -> Seq<char> {
    "store("@ + value.debug() + ", "@ + name(order) + ")"@
}

/// The trace of a read-modify-write.
pub open spec fn rmw_text<T: Numeric>(
    op: Seq<char>,
    arg: T,
    order: MemoryOrder,
    reply: T,
) -> Seq<char> {
    op + "("@ + arg.debug() + ", "@ + name(order) + ") -> "@ + reply.debug()
}

/// The `Debug` text of the reply to a compare-exchange.
pub open spec fn reply_text<T: Numeric>(reply: Result<T, T>) -> Seq<char> {
    match reply {
        Ok(value) => "Ok("@ + value.debug() + ")"@,
        Err(value) => "Err("@ + value.debug() + ")"@,
    }
}

/// The trace of a compare-exchange.
pub open spec fn exchange_text<T: Numeric>(
    op: Seq<char>,
    exchange: Exchange<T>,
    reply: Result<T, T>,
) -> Seq<char> {
    op + "("@ + exchange.current.debug() + ", "@ + exchange.new.debug() + ", "@ + name(
        exchange.success,
    ) + ", "@ + name(exchange.failure) + ") -> "@ + reply_text(reply)
}

/// Whether an operation of one ordering uses the one that it should, and leaves the downgrades
/// of the run as it should.
pub open spec fn resolves(
    before: Option<Mode>,
    after: Option<Mode>,
    place: Place,
    order: MemoryOrder,
    used: MemoryOrder,
) -> bool {
    &&& used == applied(before, place, Slot::Single, order)
    &&& after == mode_after(before, place, Slot::Single, order)
}

/// The same of an operation of two orderings, which share a call site and are told apart by
/// their slots.
pub open spec fn resolves_both(
    before: Option<Mode>,
    after: Option<Mode>,
    place: Place,
    orders: (MemoryOrder, MemoryOrder),
    used: (MemoryOrder, MemoryOrder),
) -> bool {
    let between = mode_after(before, place, Slot::Success, orders.0);
    &&& used.0 == applied(before, place, Slot::Success, orders.0)
    &&& used.1 == applied(between, place, Slot::Failure, orders.1)
    &&& after == mode_after(between, place, Slot::Failure, orders.1)
}

/// The failure ordering of a compare-and-swap, which is only given one ordering.
pub open spec fn failure_order(order: MemoryOrder) -> MemoryOrder {
    match order {
        MemoryOrder::Relaxed | MemoryOrder::Release => MemoryOrder::Relaxed,
        MemoryOrder::Acquire | MemoryOrder::AcqRel => MemoryOrder::Acquire,
        MemoryOrder::SeqCst => MemoryOrder::SeqCst,
    }
}

/// What a `fetch_update` does once its load is replied to.
pub open spec fn after_load<T>(reply: T) -> FetchUpdate<T> {
    FetchUpdate::Update(reply)
}

/// What a `fetch_update` does once its compare-exchange is replied to.
pub open spec fn after_exchange<T>(reply: Result<T, T>) -> FetchUpdate<T> {
    match reply {
        Ok(value) => FetchUpdate::Return(Ok(value)),
        Err(value) => FetchUpdate::Update(value),
    }
}

/// Whether a compare-exchange is the one that a `fetch_update` performs once the update function
/// answers `next` for `prev`.
pub open spec fn is_update<T>(exchange: Exchange<T>, prev: T, next: T) -> bool {
    &&& exchange.op@ == "compare_exchange"@
    &&& exchange.current == prev
    &&& exchange.new == next
}

/// What a `fetch_update` does once the update function refuses a value.
pub open spec fn after_refusal<T>(prev: T) -> FetchUpdate<T> {
    FetchUpdate::Return(Err(prev))
}

/// A load that is not synchronized with the other operations.
#[derive(Debug, Copy, Clone)]
pub struct UnsyncLoad;

impl UnsyncLoad {
    /// The line that traces the load.
    pub fn line<T: Numeric>(&self, reply: T) -> (line: String)
        ensures
            line@ == unsync_load_text(reply),
    {
        let mut line = String::new();
        line.append("unsync_load() -> ");
        reply.push_debug(&mut line);
        proof {
            assert(line@ =~= unsync_load_text(reply));
        }
        line
    }
}

/// A load.
#[derive(Debug, Copy, Clone)]
pub struct Load {
    pub order: MemoryOrder,
}

impl Load {
    /// The line that traces the load.
    pub fn line<T: Numeric>(&self, reply: T) -> (line: String)
        ensures
            line@ == load_text(self.order, reply),
    {
        let mut line = String::new();
        line.append("load(");
        line.append(ordering_name(self.order));
        line.append(") -> ");
        reply.push_debug(&mut line);
        proof {
            assert(line@ =~= load_text(self.order, reply));
        }
        line
    }
}

/// A store.
#[derive(Debug)]
pub struct Store<T> {
    pub value: T,
    pub order: MemoryOrder,
}

impl<T: Numeric> Store<T> {
    /// The line that traces the store.
    pub fn line(&self) -> (line: String)
        ensures
            line@ == store_text(self.value, self.order),
    {
        let mut line = String::new();
        line.append("store(");
        self.value.push_debug(&mut line);
        line.append(", ");
        line.append(ordering_name(self.order));
        line.append(")");
        proof {
            assert(line@ =~= store_text(self.value, self.order));
        }
        line
    }
}

/// A read-modify-write. `op` and `arg` are only used for tracing, and are the name and the
/// argument of the operation as called by the tested code, e.g. `("fetch_add", 1)`.
#[derive(Debug)]
pub struct Rmw<T> {
    pub op: &'static str,
    pub arg: T,
    pub order: MemoryOrder,
}

impl<T: Numeric> Rmw<T> {
    /// The success and the failure orderings that the runtime is given, which are the same
    /// one: a read-modify-write does not fail.
    pub fn orders(&self) -> (orders: (MemoryOrder, MemoryOrder))
        ensures
            orders == (self.order, self.order),
    {
        (self.order, self.order)
    }

    /// What replaces the value `actual`, which `f` computes and never refuses to.
    pub fn update<F: FnOnce(T) -> T>(&self, f: F, actual: T) -> (next: Result<T, ()>)
        requires
            f.requires((actual,)),
        ensures
            next matches Ok(next) && f.ensures((actual,), next),
    {
        Ok(f(actual))
    }

    /// What replaces the value `actual` in a swap, i.e. its argument.
    pub fn swapped(&self, actual: T) -> (next: T)
        ensures
            next == self.arg,
    {
        self.arg
    }

    /// The line that traces the read-modify-write.
    pub fn line(&self, reply: T) -> (line: String)
        ensures
            line@ == rmw_text(self.op@, self.arg, self.order, reply),
    {
        let mut line = String::new();
        line.append(self.op);
        line.append("(");
        self.arg.push_debug(&mut line);
        line.append(", ");
        line.append(ordering_name(self.order));
        line.append(") -> ");
        reply.push_debug(&mut line);
        proof {
            assert(line@ =~= rmw_text(self.op@, self.arg, self.order, reply));
        }
        line
    }
}

/// A compare-exchange.
#[derive(Debug)]
pub struct Exchange<T> {
    /// Only used for tracing, it is the name of the operation as called by the tested code,
    /// e.g. `"compare_exchange_weak"`.
    pub op: &'static str,
    pub current: T,
    pub new: T,
    pub success: MemoryOrder,
    pub failure: MemoryOrder,
}

impl<T: Numeric> Exchange<T> {
    /// What replaces the value `actual`, or why nothing does.
    pub fn decide(&self, actual: T) -> (next: Result<T, T>)
        ensures
            next == if actual == self.current {
                Ok::<T, T>(self.new)
            } else {
                Err(actual)
            },
    {
        if actual.equals(self.current) {
            Ok(self.new)
        } else {
            Err(actual)
        }
    }

    /// The line that traces the compare-exchange.
    pub fn line(&self, reply: Result<T, T>) -> (line: String)
        ensures
            line@ == exchange_text(self.op@, *self, reply),
    {
        let mut line = String::new();
        line.append(self.op);
        line.append("(");
        self.current.push_debug(&mut line);
        line.append(", ");
        self.new.push_debug(&mut line);
        line.append(", ");
        line.append(ordering_name(self.success));
        line.append(", ");
        line.append(ordering_name(self.failure));
        line.append(") -> ");
        match reply {
            Ok(value) => {
                line.append("Ok(");
                value.push_debug(&mut line);
            },
            Err(value) => {
                line.append("Err(");
                value.push_debug(&mut line);
            },
        }
        line.append(")");
        proof {
            assert(line@ =~= exchange_text(self.op@, *self, reply));
        }
        line
    }
}

/// What a `fetch_update` does next.
#[derive(Debug)]
pub enum FetchUpdate<T> {
    /// Call the update function with the value that was read.
    Update(T),
    /// Perform a compare-exchange.
    Exchange(Exchange<T>),
    /// Return to the tested code.
    Return(Result<T, T>),
}

impl<T: Numeric> FetchUpdate<T> {
    /// Goes on once the reply to the load is there: the update function is called with the
    /// value that it read.
    pub fn loaded(reply: T) -> (next: FetchUpdate<T>)
        ensures
            next == after_load(reply),
    {
        FetchUpdate::Update(reply)
    }

    /// Goes on once the reply to the compare-exchange is there: if it failed, the update
    /// function is called with the value that it read.
    pub fn exchanged(reply: Result<T, T>) -> (next: FetchUpdate<T>)
        ensures
            next == after_exchange(reply),
    {
        match reply {
            Ok(value) => FetchUpdate::Return(Ok(value)),
            Err(value) => FetchUpdate::Update(value),
        }
    }
}

/// An atomic object, `state` being what the runtime keeps of it.
#[derive(Debug)]
pub struct Atomic<S> {
    state: S,
}

impl<S> View for Atomic<S> {
    type V = S;

    closed spec fn view(&self) -> S {
        self.state
    }
}

impl<S> Atomic<S> {
    pub fn new(state: S) -> (atomic: Atomic<S>)
        ensures
            atomic@ == state,
    {
        Atomic { state }
    }

    /// What the runtime keeps of the object.
    pub fn state(&self) -> (state: &S)
        ensures
            *state == self@,
    {
        &self.state
    }

    pub fn unsync_load(&self) -> (load: UnsyncLoad)
        ensures
            load == UnsyncLoad,
    {
        UnsyncLoad
    }

    pub fn load(
        &self,
        downgrade: &mut Option<Downgrade>,
        location: &Location<'static>,
        order: MemoryOrder,
    ) -> (load: Load)
        ensures
            resolves(
                mode_of(*old(downgrade)),
                mode_of(*final(downgrade)),
                location@,
                order,
                load.order,
            ),
    {
        Load { order: apply(downgrade, location, order, Slot::Single) }
    }

    pub fn store<T: Numeric>(
        &self,
        downgrade: &mut Option<Downgrade>,
        location: &Location<'static>,
        value: T,
        order: MemoryOrder,
    ) -> (store: Store<T>)
        ensures
            store.value == value,
            resolves(
                mode_of(*old(downgrade)),
                mode_of(*final(downgrade)),
                location@,
                order,
                store.order,
            ),
    {
        Store { value, order: apply(downgrade, location, order, Slot::Single) }
    }

    /// Exclusive access to what the runtime keeps of the object. Nothing is traced, and there
    /// is no ordering to downgrade.
    pub fn with_mut(&mut self) -> (state: &mut S)
        ensures
            *state == old(self)@,
            final(self)@ == *final(state),
    {
        &mut self.state
    }

    /// Read-modify-write
    ///
    /// Always reads the most recent write
    pub fn rmw<T: Numeric>(
        &self,
        downgrade: &mut Option<Downgrade>,
        location: &Location<'static>,
        op: &'static str,
        arg: T,
        order: MemoryOrder,
    ) -> (rmw: Rmw<T>)
        ensures
            rmw.op == op,
            rmw.arg == arg,
            resolves(
                mode_of(*old(downgrade)),
                mode_of(*final(downgrade)),
                location@,
                order,
                rmw.order,
            ),
    {
        Rmw { op, arg, order: apply(downgrade, location, order, Slot::Single) }
    }

    pub fn swap<T: Numeric>(
        &self,
        downgrade: &mut Option<Downgrade>,
        location: &Location<'static>,
        val: T,
        order: MemoryOrder,
    ) -> (rmw: Rmw<T>)
        ensures
            rmw.op@ == "swap"@,
            rmw.arg == val,
            resolves(
                mode_of(*old(downgrade)),
                mode_of(*final(downgrade)),
                location@,
                order,
                rmw.order,
            ),
    {
        self.rmw(downgrade, location, "swap", val, order)
    }

    pub fn compare_and_swap<T: Numeric>(
        &self,
        downgrade: &mut Option<Downgrade>,
        location: &Location<'static>,
        current: T,
        new: T,
        order: MemoryOrder,
    ) -> (exchange: Exchange<T>)
        ensures
            exchange.op@ == "compare_and_swap"@,
            exchange.current == current,
            exchange.new == new,
            resolves_both(
                mode_of(*old(downgrade)),
                mode_of(*final(downgrade)),
                location@,
                (order, failure_order(order)),
                (exchange.success, exchange.failure),
            ),
    {
        let failure: MemoryOrder = match order {
            MemoryOrder::Relaxed | MemoryOrder::Release => MemoryOrder::Relaxed,
            MemoryOrder::Acquire | MemoryOrder::AcqRel => MemoryOrder::Acquire,
            MemoryOrder::SeqCst => MemoryOrder::SeqCst,
        };
        self.compare_exchange_named(
            downgrade,
            location,
            "compare_and_swap",
            current,
            new,
            order,
            failure,
        )
    }

    /// The value that a compare-and-swap returns, which is the one that was read, whether it
    /// was replaced or not.
    pub fn compare_and_swap_result<T: Numeric>(&self, reply: Result<T, T>) -> (value: T)
        ensures
            reply == Ok::<T, T>(value) || reply == Err::<T, T>(value),
    {
        match reply {
            Ok(value) => value,
            Err(value) => value,
        }
    }

    pub fn compare_exchange<T: Numeric>(
        &self,
        downgrade: &mut Option<Downgrade>,
        location: &Location<'static>,
        current: T,
        new: T,
        success: MemoryOrder,
        failure: MemoryOrder,
    ) -> (exchange: Exchange<T>)
        ensures
            exchange.op@ == "compare_exchange"@,
            exchange.current == current,
            exchange.new == new,
            resolves_both(
                mode_of(*old(downgrade)),
                mode_of(*final(downgrade)),
                location@,
                (success, failure),
                (exchange.success, exchange.failure),
            ),
    {
        self.compare_exchange_named(
            downgrade,
            location,
            "compare_exchange",
            current,
            new,
            success,
            failure,
        )
    }

    pub fn compare_exchange_named<T: Numeric>(
        &self,
        downgrade: &mut Option<Downgrade>,
        location: &Location<'static>,
        op: &'static str,
        current: T,
        new: T,
        success: MemoryOrder,
        failure: MemoryOrder,
    ) -> (exchange: Exchange<T>)
        ensures
            exchange.op == op,
            exchange.current == current,
            exchange.new == new,
            resolves_both(
                mode_of(*old(downgrade)),
                mode_of(*final(downgrade)),
                location@,
                (success, failure),
                (exchange.success, exchange.failure),
            ),
    {
        // The two orderings of a compare-exchange share a call site, so they need a slot to
        // be selected independently.
        let success: MemoryOrder = apply(downgrade, location, success, Slot::Success);
        let failure: MemoryOrder = apply(downgrade, location, failure, Slot::Failure);
        Exchange { op, current, new, success, failure }
    }

    /// Starts a `fetch_update`, with a load, whose reply [`FetchUpdate::loaded`] goes on with.
    ///
    /// The load and the compare-exchanges are traced (and downgradable) on their own, sharing
    /// the call site of the `fetch_update`.
    pub fn fetch_update(
        &self,
        downgrade: &mut Option<Downgrade>,
        location: &Location<'static>,
        fetch_order: MemoryOrder,
    ) -> (load: Load)
        ensures
            resolves(
                mode_of(*old(downgrade)),
                mode_of(*final(downgrade)),
                location@,
                fetch_order,
                load.order,
            ),
    {
        self.load(downgrade, location, fetch_order)
    }

    /// Goes on with a `fetch_update` once the update function was called with `prev`, `next`
    /// being what it returned.
    pub fn fetch_updated<T: Numeric>(
        &self,
        downgrade: &mut Option<Downgrade>,
        location: &Location<'static>,
        set_order: MemoryOrder,
        fetch_order: MemoryOrder,
        prev: T,
        next: Option<T>,
    ) -> (step: FetchUpdate<T>)
        ensures
            match next {
                Some(next) => {
                    &&& step matches FetchUpdate::Exchange(exchange)
                    &&& is_update(exchange, prev, next)
                    &&& resolves_both(
                        mode_of(*old(downgrade)),
                        mode_of(*final(downgrade)),
                        location@,
                        (set_order, fetch_order),
                        (exchange.success, exchange.failure),
                    )
                },
                None => {
                    &&& step == after_refusal(prev)
                    &&& mode_of(*final(downgrade)) == mode_of(*old(downgrade))
                },
            },
    {
        match next {
            Some(next) => FetchUpdate::Exchange(
                self.compare_exchange_named(
                    downgrade,
                    location,
                    "compare_exchange",
                    prev,
                    next,
                    set_order,
                    fetch_order,
                ),
            ),
            None => FetchUpdate::Return(Err(prev)),
        }
    }
}

} // verus!
