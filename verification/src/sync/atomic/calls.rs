//! What holds of calls of the atomic operations, and of what is traced of them.

use vstd::prelude::*;

use crate::downgrade::collect::{is_well_formed, Collector};
use crate::downgrade::laws::{is_at, law_selected_ordering_is_downgraded};
use crate::downgrade::site::Site;
use crate::downgrade::slot::Slot;
use crate::downgrade::{mode_of, Downgrade};
use crate::order::{is_weaker, name, suits, MemoryOrder, OperationKind};
use crate::rt::{Location, Numeric};
use crate::sync::atomic::atomic::{
    failure_order, Atomic, Exchange, FetchUpdate, Load, Rmw, Store, UnsyncLoad,
};
use crate::sync::atomic::laws::{
    call_text, collectable, is_collected, law_exchange_is_traced_as_a_call,
    law_executed_operation_collects_its_orderings, law_failure_order_is_the_strongest_load_order,
    law_fence_is_traced_as_a_call, law_loads_and_stores_are_traced_as_calls,
    law_rmw_is_traced_as_a_call, law_selected_exchange_uses_the_downgrade,
    law_selected_operation_uses_the_downgrade, result_text,
};
use crate::sync::atomic::{fence, Fence};

verus! {

/// In a run that selects an ordering, a load, a store, a read-modify-write, a swap and the load of
/// a `fetch_update` use the downgrade at the site of the selection, with the ordering that it
/// downgrades, whichever it is. They use the ordering that they are given anywhere else.
pub proof fn law_calls_use_the_selected_ordering<S, T: Numeric>(
    atomic: &Atomic<S>,
    downgrade: &mut Option<Downgrade>,
    location: &Location<'static>,
    op: &'static str,
    value: T,
    order: MemoryOrder,
    load: Load,
    store: Store<T>,
    rmw: Rmw<T>,
    used: MemoryOrder,
    site: Site,
    selected: Slot,
    from: MemoryOrder,
    to: MemoryOrder,
)
    requires
        *old(downgrade) == Some(Downgrade::Select { site, slot: selected, from, to }),
        ({
            ||| call_ensures(Atomic::<S>::load, (atomic, downgrade, location, order), load) && used
                == load.order
            ||| call_ensures(Atomic::<S>::fetch_update, (atomic, downgrade, location, order), load)
                && used == load.order
            ||| call_ensures(
                Atomic::<S>::store::<T>,
                (atomic, downgrade, location, value, order),
                store,
            ) && used == store.order
            ||| call_ensures(
                Atomic::<S>::rmw::<T>,
                (atomic, downgrade, location, op, value, order),
                rmw,
            ) && used == rmw.order
            ||| call_ensures(
                Atomic::<S>::swap::<T>,
                (atomic, downgrade, location, value, order),
                rmw,
            ) && used == rmw.order
        }),
    ensures
        selected is Single && is_at(site, *location) && order == from && !(order is Relaxed)
            ==> used == to,
        !(selected is Single) || !is_at(site, *location) || order != from || order is Relaxed
            ==> used == order,
        mode_of(*final(downgrade)) == mode_of(*old(downgrade)),
{
    law_selected_operation_uses_the_downgrade(
        site,
        selected,
        from,
        to,
        mode_of(*final(downgrade)),
        *location,
        order,
        used,
    );
}

/// In a run that selects an ordering, a compare-exchange, a compare-and-swap and the
/// compare-exchanges of a `fetch_update` use the downgrade at the site of the selection, for the
/// success or for the failure as it says, with the ordering that it downgrades. They use the
/// orderings that they are given anywhere else.
pub proof fn law_exchanges_use_the_selected_ordering<S, T: Numeric>(
    atomic: &Atomic<S>,
    downgrade: &mut Option<Downgrade>,
    location: &Location<'static>,
    op: &'static str,
    current: T,
    new: T,
    success: MemoryOrder,
    failure: MemoryOrder,
    exchange: Exchange<T>,
    site: Site,
    selected: Slot,
    from: MemoryOrder,
    to: MemoryOrder,
)
    requires
        *old(downgrade) == Some(Downgrade::Select { site, slot: selected, from, to }),
        ({
            ||| call_ensures(
                Atomic::<S>::compare_exchange::<T>,
                (atomic, downgrade, location, current, new, success, failure),
                exchange,
            )
            ||| call_ensures(
                Atomic::<S>::compare_exchange_named::<T>,
                (atomic, downgrade, location, op, current, new, success, failure),
                exchange,
            )
            ||| call_ensures(
                Atomic::<S>::fetch_updated::<T>,
                (atomic, downgrade, location, success, failure, current, Some(new)),
                FetchUpdate::Exchange(exchange),
            )
            ||| call_ensures(
                Atomic::<S>::compare_and_swap::<T>,
                (atomic, downgrade, location, current, new, success),
                exchange,
            ) && failure == failure_order(success)
        }),
    ensures
        exchange.current == current,
        exchange.new == new,
        selected is Success && is_at(site, *location) && success == from && !(from is Relaxed)
            ==> exchange.success == to,
        selected is Failure && is_at(site, *location) && failure == from && !(from is Relaxed)
            ==> exchange.failure == to,
        !(selected is Success) || !is_at(site, *location) || success != from || from is Relaxed
            ==> exchange.success == success,
        !(selected is Failure) || !is_at(site, *location) || failure != from || from is Relaxed
            ==> exchange.failure == failure,
        mode_of(*final(downgrade)) == mode_of(*old(downgrade)),
{
    law_selected_exchange_uses_the_downgrade(
        site,
        selected,
        from,
        to,
        mode_of(*final(downgrade)),
        *location,
        (success, failure),
        (exchange.success, exchange.failure),
    );
}

/// In a collecting run, a load, a store, a read-modify-write, a swap and the load of a
/// `fetch_update` use the ordering that they are given, and are collected with it.
pub proof fn law_calls_are_collected<S, T: Numeric>(
    atomic: &Atomic<S>,
    downgrade: &mut Option<Downgrade>,
    location: &Location<'static>,
    op: &'static str,
    value: T,
    order: MemoryOrder,
    load: Load,
    store: Store<T>,
    rmw: Rmw<T>,
    used: MemoryOrder,
    collector: Collector,
)
    requires
        *old(downgrade) == Some(Downgrade::Collect(collector)),
        is_well_formed(collector@),
        ({
            ||| call_ensures(Atomic::<S>::load, (atomic, downgrade, location, order), load) && used
                == load.order
            ||| call_ensures(Atomic::<S>::fetch_update, (atomic, downgrade, location, order), load)
                && used == load.order
            ||| call_ensures(
                Atomic::<S>::store::<T>,
                (atomic, downgrade, location, value, order),
                store,
            ) && used == store.order
            ||| call_ensures(
                Atomic::<S>::rmw::<T>,
                (atomic, downgrade, location, op, value, order),
                rmw,
            ) && used == rmw.order
            ||| call_ensures(
                Atomic::<S>::swap::<T>,
                (atomic, downgrade, location, value, order),
                rmw,
            ) && used == rmw.order
        }),
    ensures
        used == order,
        is_collected(
            collector@,
            mode_of(*final(downgrade)),
            collectable(
                *location,
                collector@.backslash_separates,
                set![(Slot::Single, order)],
            ),
        ),
{
    let both = (MemoryOrder::Relaxed, MemoryOrder::Relaxed);
    law_executed_operation_collects_its_orderings(
        collector,
        mode_of(*final(downgrade)),
        mode_of(*old(downgrade)),
        *location,
        order,
        used,
        both,
        both,
    );
}

/// In a collecting run, a compare-exchange, a compare-and-swap and the compare-exchanges of a
/// `fetch_update` use the orderings that they are given, and are collected with each of them.
pub proof fn law_exchanges_are_collected<S, T: Numeric>(
    atomic: &Atomic<S>,
    downgrade: &mut Option<Downgrade>,
    location: &Location<'static>,
    op: &'static str,
    current: T,
    new: T,
    success: MemoryOrder,
    failure: MemoryOrder,
    exchange: Exchange<T>,
    collector: Collector,
)
    requires
        *old(downgrade) == Some(Downgrade::Collect(collector)),
        is_well_formed(collector@),
        ({
            ||| call_ensures(
                Atomic::<S>::compare_exchange::<T>,
                (atomic, downgrade, location, current, new, success, failure),
                exchange,
            )
            ||| call_ensures(
                Atomic::<S>::compare_exchange_named::<T>,
                (atomic, downgrade, location, op, current, new, success, failure),
                exchange,
            )
            ||| call_ensures(
                Atomic::<S>::fetch_updated::<T>,
                (atomic, downgrade, location, success, failure, current, Some(new)),
                FetchUpdate::Exchange(exchange),
            )
            ||| call_ensures(
                Atomic::<S>::compare_and_swap::<T>,
                (atomic, downgrade, location, current, new, success),
                exchange,
            ) && failure == failure_order(success)
        }),
    ensures
        exchange.success == success,
        exchange.failure == failure,
        is_collected(
            collector@,
            mode_of(*final(downgrade)),
            collectable(
                *location,
                collector@.backslash_separates,
                set![(Slot::Success, success), (Slot::Failure, failure)],
            ),
        ),
{
    law_executed_operation_collects_its_orderings(
        collector,
        mode_of(*old(downgrade)),
        mode_of(*final(downgrade)),
        *location,
        MemoryOrder::Relaxed,
        MemoryOrder::Relaxed,
        (success, failure),
        (exchange.success, exchange.failure),
    );
}

/// Without a variable, a load, a store, a read-modify-write, a swap and the load of a
/// `fetch_update` use the ordering that they are given.
pub proof fn law_calls_keep_their_ordering<S, T: Numeric>(
    atomic: &Atomic<S>,
    downgrade: &mut Option<Downgrade>,
    location: &Location<'static>,
    op: &'static str,
    value: T,
    order: MemoryOrder,
    load: Load,
    store: Store<T>,
    rmw: Rmw<T>,
    used: MemoryOrder,
)
    requires
        *old(downgrade) is None,
        ({
            ||| call_ensures(Atomic::<S>::load, (atomic, downgrade, location, order), load) && used
                == load.order
            ||| call_ensures(Atomic::<S>::fetch_update, (atomic, downgrade, location, order), load)
                && used == load.order
            ||| call_ensures(
                Atomic::<S>::store::<T>,
                (atomic, downgrade, location, value, order),
                store,
            ) && used == store.order
            ||| call_ensures(
                Atomic::<S>::rmw::<T>,
                (atomic, downgrade, location, op, value, order),
                rmw,
            ) && used == rmw.order
            ||| call_ensures(
                Atomic::<S>::swap::<T>,
                (atomic, downgrade, location, value, order),
                rmw,
            ) && used == rmw.order
        }),
    ensures
        used == order,
        mode_of(*final(downgrade)) is None,
{
}

/// Without a variable, a compare-exchange, a compare-and-swap and the compare-exchanges of a
/// `fetch_update` use the orderings that they are given.
pub proof fn law_exchanges_keep_their_orderings<S, T: Numeric>(
    atomic: &Atomic<S>,
    downgrade: &mut Option<Downgrade>,
    location: &Location<'static>,
    op: &'static str,
    current: T,
    new: T,
    success: MemoryOrder,
    failure: MemoryOrder,
    exchange: Exchange<T>,
)
    requires
        *old(downgrade) is None,
        ({
            ||| call_ensures(
                Atomic::<S>::compare_exchange::<T>,
                (atomic, downgrade, location, current, new, success, failure),
                exchange,
            )
            ||| call_ensures(
                Atomic::<S>::compare_exchange_named::<T>,
                (atomic, downgrade, location, op, current, new, success, failure),
                exchange,
            )
            ||| call_ensures(
                Atomic::<S>::fetch_updated::<T>,
                (atomic, downgrade, location, success, failure, current, Some(new)),
                FetchUpdate::Exchange(exchange),
            )
            ||| call_ensures(
                Atomic::<S>::compare_and_swap::<T>,
                (atomic, downgrade, location, current, new, success),
                exchange,
            ) && failure == failure_order(success)
        }),
    ensures
        exchange.success == success,
        exchange.failure == failure,
        mode_of(*final(downgrade)) is None,
{
}

/// Without a variable, a compare-and-swap fails with the strongest ordering of a load that is not
/// stronger than its own.
pub proof fn law_compare_and_swap_fails_as_a_load<S, T: Numeric>(
    atomic: &Atomic<S>,
    downgrade: &mut Option<Downgrade>,
    location: &Location<'static>,
    current: T,
    new: T,
    order: MemoryOrder,
    exchange: Exchange<T>,
    other: MemoryOrder,
)
    requires
        *old(downgrade) is None,
        call_ensures(
            Atomic::<S>::compare_and_swap::<T>,
            (atomic, downgrade, location, current, new, order),
            exchange,
        ),
    ensures
        suits(OperationKind::Load, exchange.failure),
        exchange.failure == order || is_weaker(exchange.failure, order),
        suits(OperationKind::Load, other) && (other == order || is_weaker(other, order)) ==> other
            == exchange.failure || is_weaker(other, exchange.failure),
{
    law_failure_order_is_the_strongest_load_order(order, other);
}

/// Whatever is downgraded, an operation is asked for with the values that it is given, under the
/// name that the tested code calls it by.
pub proof fn law_calls_keep_their_values<S, T: Numeric>(
    atomic: &Atomic<S>,
    downgrade: &mut Option<Downgrade>,
    location: &Location<'static>,
    op: &'static str,
    value: T,
    new: T,
    order: MemoryOrder,
    failure: MemoryOrder,
    store: Store<T>,
    rmw: Rmw<T>,
    exchange: Exchange<T>,
)
    ensures
        call_ensures(
            Atomic::<S>::store::<T>,
            (atomic, downgrade, location, value, order),
            store,
        ) ==> store.value == value,
        call_ensures(
            Atomic::<S>::rmw::<T>,
            (atomic, downgrade, location, op, value, order),
            rmw,
        ) ==> rmw.op == op && rmw.arg == value,
        call_ensures(
            Atomic::<S>::swap::<T>,
            (atomic, downgrade, location, value, order),
            rmw,
        ) ==> rmw.op@ == "swap"@ && rmw.arg == value,
        call_ensures(
            Atomic::<S>::compare_exchange_named::<T>,
            (atomic, downgrade, location, op, value, new, order, failure),
            exchange,
        ) ==> exchange.op == op && exchange.current == value && exchange.new == new,
        call_ensures(
            Atomic::<S>::compare_exchange::<T>,
            (atomic, downgrade, location, value, new, order, failure),
            exchange,
        ) ==> exchange.op@ == "compare_exchange"@ && exchange.current == value && exchange.new
            == new,
        call_ensures(
            Atomic::<S>::compare_and_swap::<T>,
            (atomic, downgrade, location, value, new, order),
            exchange,
        ) ==> exchange.op@ == "compare_and_swap"@ && exchange.current == value && exchange.new
            == new,
{
}

/// In a run that selects an ordering, a fence at the site of the selection, with the ordering that
/// it downgrades, is performed with the downgrade, or removed if that is `Relaxed`. Any other
/// fence is performed as it is.
pub proof fn law_fence_is_downgraded_or_removed(
    downgrade: &mut Option<Downgrade>,
    location: &Location<'static>,
    order: MemoryOrder,
    performed: Fence,
    site: Site,
    selected: Slot,
    from: MemoryOrder,
    to: MemoryOrder,
)
    requires
        *old(downgrade) == Some(Downgrade::Select { site, slot: selected, from, to }),
        call_ensures(fence, (downgrade, location, order), performed),
    ensures
        ({
            let hit = selected is Single && is_at(site, *location) && order == from && !(order
                is Relaxed);
            &&& hit && to is Relaxed ==> performed == (Fence::Remove { order })
            &&& hit && !(to is Relaxed) ==> performed == (Fence::Perform { order: to })
            &&& !hit ==> performed == (Fence::Perform { order })
        }),
        mode_of(*final(downgrade)) == mode_of(*old(downgrade)),
{
    law_selected_ordering_is_downgraded(
        site,
        selected,
        from,
        to,
        *location,
        Slot::Single,
        order,
    );
}

/// Without a variable, and in a collecting run, a fence is performed as it is; a collecting run
/// collects it like any other operation of one ordering.
pub proof fn law_fence_is_performed_and_collected(
    downgrade: &mut Option<Downgrade>,
    location: &Location<'static>,
    order: MemoryOrder,
    performed: Fence,
    collector: Collector,
)
    requires
        *old(downgrade) is None || *old(downgrade) == Some(Downgrade::Collect(collector))
            && is_well_formed(collector@),
        call_ensures(fence, (downgrade, location, order), performed),
    ensures
        performed == (Fence::Perform { order }),
        *old(downgrade) is None ==> mode_of(*final(downgrade)) is None,
        *old(downgrade) is Some ==> is_collected(
            collector@,
            mode_of(*final(downgrade)),
            collectable(
                *location,
                collector@.backslash_separates,
                set![(Slot::Single, order)],
            ),
        ),
{
    if *old(downgrade) is Some {
        let both = (MemoryOrder::Relaxed, MemoryOrder::Relaxed);
        law_executed_operation_collects_its_orderings(
            collector,
            mode_of(*final(downgrade)),
            mode_of(*old(downgrade)),
            *location,
            order,
            order,
            both,
            both,
        );
    }
}

/// An operation is traced as its call: its name, its arguments and the orderings that it used, and
/// the value that it read, if it read one.
pub proof fn law_lines_are_calls<T: Numeric>(
    unsync_load: &UnsyncLoad,
    load: &Load,
    store: &Store<T>,
    rmw: &Rmw<T>,
    exchange: &Exchange<T>,
    reply: T,
    result: Result<T, T>,
    line: String,
)
    ensures
        call_ensures(UnsyncLoad::line::<T>, (unsync_load, reply), line) ==> line@ == call_text(
            "unsync_load"@,
            seq![],
            Some(reply.debug()),
        ),
        call_ensures(Load::line::<T>, (load, reply), line) ==> line@ == call_text(
            "load"@,
            seq![name(load.order)],
            Some(reply.debug()),
        ),
        call_ensures(Store::<T>::line, (store,), line) ==> line@ == call_text(
            "store"@,
            seq![store.value.debug(), name(store.order)],
            None,
        ),
        call_ensures(Rmw::<T>::line, (rmw, reply), line) ==> line@ == call_text(
            rmw.op@,
            seq![rmw.arg.debug(), name(rmw.order)],
            Some(reply.debug()),
        ),
        call_ensures(Exchange::<T>::line, (exchange, result), line) ==> line@ == call_text(
            exchange.op@,
            seq![
                exchange.current.debug(),
                exchange.new.debug(),
                name(exchange.success),
                name(exchange.failure),
            ],
            Some(result_text(result)),
        ),
{
    law_loads_and_stores_are_traced_as_calls(reply, load.order);
    law_loads_and_stores_are_traced_as_calls(store.value, store.order);
    law_rmw_is_traced_as_a_call(rmw.op@, rmw.arg, rmw.order, reply);
    law_exchange_is_traced_as_a_call(exchange.op@, *exchange, result);
}

/// A fence is traced as its call with its ordering, and marked if it was removed.
pub proof fn law_line_of_a_fence_is_a_call(fence: &Fence, line: String)
    requires
        call_ensures(Fence::line, (fence,), line),
    ensures
        fence matches Fence::Perform { order } ==> line@ == call_text(
            "fence"@,
            seq![name(*order)],
            None,
        ),
        fence matches Fence::Remove { order } ==> line@ == call_text(
            "fence"@,
            seq![name(*order)],
            None,
        ) + " [removed]"@,
{
    match *fence {
        Fence::Perform { order } => law_fence_is_traced_as_a_call(order),
        Fence::Remove { order } => law_fence_is_traced_as_a_call(order),
    }
}

/// A compare-exchange replaces the value that it is given if it is the one compared with, and
/// reports that value otherwise. A compare-and-swap returns the value that it read either way.
pub proof fn law_exchange_replaces_the_value_it_compares_with<S, T: Numeric>(
    atomic: &Atomic<S>,
    exchange: &Exchange<T>,
    actual: T,
    decided: Result<T, T>,
    returned: T,
)
    requires
        call_ensures(Exchange::<T>::decide, (exchange, actual), decided),
        call_ensures(
            Atomic::<S>::compare_and_swap_result::<T>,
            (
                atomic,
                match decided {
                    Ok(_) => Ok::<T, T>(actual),
                    Err(value) => Err(value),
                },
            ),
            returned,
        ),
    ensures
        decided is Ok <==> actual == exchange.current,
        decided matches Ok(next) ==> next == exchange.new,
        decided matches Err(value) ==> value == actual,
        returned == actual,
{
}

/// A swap stores its argument, and every read-modify-write has one ordering only.
pub proof fn law_swap_stores_its_argument<S, T: Numeric>(
    atomic: &Atomic<S>,
    downgrade: &mut Option<Downgrade>,
    location: &Location<'static>,
    val: T,
    order: MemoryOrder,
    rmw: Rmw<T>,
    actual: T,
    next: T,
    orders: (MemoryOrder, MemoryOrder),
)
    requires
        call_ensures(Atomic::<S>::swap::<T>, (atomic, downgrade, location, val, order), rmw),
        call_ensures(Rmw::<T>::swapped, (&rmw, actual), next),
        call_ensures(Rmw::<T>::orders, (&rmw,), orders),
    ensures
        next == val,
        rmw.op@ == "swap"@,
        orders.0 == rmw.order && orders.1 == rmw.order,
{
}

/// A `fetch_update` calls the update function first with the value that its load read, and then
/// with those that its compare-exchanges found. It returns the value that it replaced, or the one
/// that the update function refused.
pub proof fn law_fetch_update_goes_on_with_what_was_read<S, T: Numeric>(
    atomic: &Atomic<S>,
    downgrade: &mut Option<Downgrade>,
    location: &Location<'static>,
    set_order: MemoryOrder,
    fetch_order: MemoryOrder,
    value: T,
    first: FetchUpdate<T>,
    failed: FetchUpdate<T>,
    succeeded: FetchUpdate<T>,
    refused: FetchUpdate<T>,
)
    requires
        call_ensures(FetchUpdate::<T>::loaded, (value,), first),
        call_ensures(FetchUpdate::<T>::exchanged, (Err::<T, T>(value),), failed),
        call_ensures(FetchUpdate::<T>::exchanged, (Ok::<T, T>(value),), succeeded),
        call_ensures(
            Atomic::<S>::fetch_updated::<T>,
            (atomic, downgrade, location, set_order, fetch_order, value, None),
            refused,
        ),
    ensures
        first == FetchUpdate::Update(value),
        failed == FetchUpdate::Update(value),
        succeeded == FetchUpdate::Return(Ok::<T, T>(value)),
        refused == FetchUpdate::Return(Err::<T, T>(value)),
        mode_of(*final(downgrade)) == mode_of(*old(downgrade)),
{
}

/// An atomic object keeps what the runtime keeps of it, and gives exclusive access to it.
pub proof fn law_object_keeps_its_state<S>(
    state: S,
    atomic: Atomic<S>,
    kept: &S,
    changing: &mut Atomic<S>,
    changed: &mut S,
)
    requires
        call_ensures(Atomic::<S>::new, (state,), atomic),
        call_ensures(Atomic::<S>::state, (&atomic,), kept),
        *old(changing) == atomic,
        call_ensures(Atomic::<S>::with_mut, (changing,), changed),
    ensures
        *kept == state,
        *old(changed) == state,
        final(changing)@ == *final(changed),
{
}

/// A read-modify-write stores what its function makes of the value that it finds, and never fails.
pub proof fn law_rmw_stores_what_its_function_makes<T: Numeric, F: FnOnce(T) -> T>(
    rmw: &Rmw<T>,
    f: F,
    actual: T,
    next: Result<T, ()>,
)
    requires
        call_ensures(Rmw::<T>::update::<F>, (rmw, f, actual), next),
    ensures
        next is Ok,
        f.ensures((actual,), next->Ok_0),
{
}

} // verus!
