//! What holds of the atomic operations as a whole.

use vstd::prelude::*;

use crate::downgrade::collect::{
    is_in_scope, is_well_formed, law_collecting_adds_the_operation, Collection, Collector, Entry,
};
use crate::downgrade::laws::{is_at, law_selected_ordering_is_downgraded};
use crate::downgrade::site::Site;
use crate::downgrade::slot::Slot;
use crate::downgrade::{mode_after, mode_of, Downgrade, Mode};
use crate::order::{
    is_weaker, law_names_differ, lemma_name_is_one_line, name, suits, MemoryOrder, OperationKind,
};
use crate::rt::{is_plain, Location, Numeric, Place};
use crate::sync::atomic::atomic::{
    after_exchange, after_load, after_refusal, exchange_text, failure_order, is_update, load_text,
    reply_text, resolves, resolves_both, rmw_text, store_text, unsync_load_text, Exchange,
    FetchUpdate, Rmw,
};
use crate::sync::atomic::{fence_text, Fence};
use crate::text::{is_one_line, lemma_one_line_concat};

verus! {

/// What a `fetch_update` returns, if its first load reads `prev`, the update function answers
/// `nexts` and the compare-exchanges are replied to with `replies`. It is `None` while it goes
/// on.
pub open spec fn fetch_update_result<T>(
    prev: T,
    nexts: Seq<Option<T>>,
    replies: Seq<Result<T, T>>,
) -> Option<Result<T, T>> {
    match after_load(prev) {
        FetchUpdate::Return(result) => Some(result),
        FetchUpdate::Update(value) => update_result(value, nexts, replies),
        FetchUpdate::Exchange(_) => None,
    }
}

/// The same from the call of the update function with `prev` on.
pub open spec fn update_result<T>(
    prev: T,
    nexts: Seq<Option<T>>,
    replies: Seq<Result<T, T>>,
) -> Option<Result<T, T>>
    decreases nexts.len(),
{
    if nexts.len() == 0 {
        None
    } else if nexts[0] is None {
        Some(after_refusal(prev)->Return_0)
    } else if replies.len() == 0 {
        None
    } else {
        match after_exchange(replies[0]) {
            FetchUpdate::Return(result) => Some(result),
            FetchUpdate::Update(value) => update_result(value, nexts.skip(1), replies.skip(1)),
            FetchUpdate::Exchange(_) => None,
        }
    }
}

/// The value that the update function is called with after `i` failed compare-exchanges.
pub open spec fn observed<T>(prev: T, replies: Seq<Result<T, T>>, i: int) -> T {
    if i == 0 {
        prev
    } else {
        replies[i - 1]->Err_0
    }
}

/// Whether the first `n` compare-exchanges were performed, and failed.
pub open spec fn all_failed<T>(
    nexts: Seq<Option<T>>,
    replies: Seq<Result<T, T>>,
    n: int,
) -> bool {
    &&& 0 <= n <= replies.len()
    &&& n <= nexts.len()
    &&& forall|i: int| 0 <= i < n ==> #[trigger] replies[i] is Err && nexts[i] is Some
}

/// Whether compare-exchange `n` is the first one to succeed, and is replied to with `value`.
pub open spec fn succeeds_at<T>(
    nexts: Seq<Option<T>>,
    replies: Seq<Result<T, T>>,
    value: T,
    n: int,
) -> bool {
    &&& all_failed(nexts, replies, n)
    &&& n < nexts.len() && nexts[n] is Some
    &&& n < replies.len() && replies[n] == Ok::<T, T>(value)
}

/// Whether the update function refuses `value`, which was read after `n` compare-exchanges that
/// all failed.
pub open spec fn refuses_at<T>(
    prev: T,
    nexts: Seq<Option<T>>,
    replies: Seq<Result<T, T>>,
    value: T,
    n: int,
) -> bool {
    &&& all_failed(nexts, replies, n)
    &&& n < nexts.len() && nexts[n] is None
    &&& observed(prev, replies, n) == value
}

/// Whether `exchanges` are the compare-exchanges of a `fetch_update`, each of them replied to
/// with the value it compared with if it succeeds.
pub open spec fn are_exchanges<T>(
    prev: T,
    nexts: Seq<Option<T>>,
    exchanges: Seq<Exchange<T>>,
    replies: Seq<Result<T, T>>,
) -> bool {
    &&& exchanges.len() == replies.len() <= nexts.len()
    &&& forall|i: int|
        0 <= i < exchanges.len() ==> nexts[i] is Some && is_update(
            #[trigger] exchanges[i],
            observed(prev, replies, i),
            nexts[i]->0,
        )
    &&& forall|i: int|
        0 <= i < replies.len() && #[trigger] replies[i] is Ok ==> replies[i]->Ok_0
            == exchanges[i].current
}

/// A `fetch_update` succeeds exactly when one of its compare-exchanges does, all the previous
/// ones having failed, and returns the value that this one was replied to with.
pub proof fn law_fetch_update_succeeds_with_an_exchange<T>(
    prev: T,
    nexts: Seq<Option<T>>,
    replies: Seq<Result<T, T>>,
    value: T,
)
    ensures
        fetch_update_result(prev, nexts, replies) == Some(Ok::<T, T>(value)) <==> exists|n: int|
            succeeds_at(nexts, replies, value, n),
    decreases nexts.len(),
{
    if goes_on(nexts, replies) {
        let first = replies[0]->Err_0;
        let later = nexts.skip(1);
        let rest = replies.skip(1);
        law_fetch_update_succeeds_with_an_exchange(first, later, rest, value);
        if exists|n: int| succeeds_at(later, rest, value, n) {
            let n = choose|n: int| succeeds_at(later, rest, value, n);
            lemma_shift(nexts, replies, n + 1);
            assert(succeeds_at(nexts, replies, value, n + 1));
        }
        if exists|n: int| succeeds_at(nexts, replies, value, n) {
            let n = choose|n: int| succeeds_at(nexts, replies, value, n);
            lemma_shift(nexts, replies, n);
            assert(succeeds_at(later, rest, value, n - 1));
        }
    } else {
        assert(fetch_update_result(prev, nexts, replies) == Some(Ok::<T, T>(value))
            ==> succeeds_at(nexts, replies, value, 0));
        if exists|n: int| succeeds_at(nexts, replies, value, n) {
            let n = choose|n: int| succeeds_at(nexts, replies, value, n);
            assert(n > 0 ==> replies[0] is Err);
        }
    }
}

/// A `fetch_update` fails exactly when the update function refuses the last value that was
/// read, all the compare-exchanges having failed, and returns that value.
pub proof fn law_fetch_update_fails_when_refused<T>(
    prev: T,
    nexts: Seq<Option<T>>,
    replies: Seq<Result<T, T>>,
    value: T,
)
    ensures
        fetch_update_result(prev, nexts, replies) == Some(Err::<T, T>(value)) <==> exists|n: int|
            refuses_at(prev, nexts, replies, value, n),
    decreases nexts.len(),
{
    if goes_on(nexts, replies) {
        let first = replies[0]->Err_0;
        let later = nexts.skip(1);
        let rest = replies.skip(1);
        law_fetch_update_fails_when_refused(first, later, rest, value);
        if exists|n: int| refuses_at(first, later, rest, value, n) {
            let n = choose|n: int| refuses_at(first, later, rest, value, n);
            lemma_shift(nexts, replies, n + 1);
            assert(refuses_at(prev, nexts, replies, value, n + 1));
        }
        if exists|n: int| refuses_at(prev, nexts, replies, value, n) {
            let n = choose|n: int| refuses_at(prev, nexts, replies, value, n);
            lemma_shift(nexts, replies, n);
            assert(refuses_at(first, later, rest, value, n - 1));
        }
    } else {
        assert(fetch_update_result(prev, nexts, replies) == Some(Err::<T, T>(value))
            ==> refuses_at(prev, nexts, replies, value, 0));
        if exists|n: int| refuses_at(prev, nexts, replies, value, n) {
            let n = choose|n: int| refuses_at(prev, nexts, replies, value, n);
            assert(n > 0 ==> replies[0] is Err);
        }
    }
}

/// Whether the first compare-exchange was performed, and failed.
spec fn goes_on<T>(nexts: Seq<Option<T>>, replies: Seq<Result<T, T>>) -> bool {
    nexts.len() > 0 && nexts[0] is Some && replies.len() > 0 && replies[0] is Err
}

/// After the first compare-exchange, there is one less to fail.
proof fn lemma_shift<T>(nexts: Seq<Option<T>>, replies: Seq<Result<T, T>>, n: int)
    requires
        goes_on(nexts, replies),
    ensures
        n >= 1 ==> (all_failed(nexts, replies, n) <==> all_failed(
            nexts.skip(1),
            replies.skip(1),
            n - 1,
        )),
{
    let later = nexts.skip(1);
    let rest = replies.skip(1);
    if n >= 1 && all_failed(nexts, replies, n) {
        assert forall|i: int| 0 <= i < n - 1 implies #[trigger] rest[i] is Err
            && later[i] is Some by {
            assert(replies[i + 1] is Err && nexts[i + 1] is Some);
        }
    }
    if n >= 1 && all_failed(later, rest, n - 1) {
        assert forall|i: int| 0 <= i < n implies #[trigger] replies[i] is Err
            && nexts[i] is Some by {
            if i > 0 {
                assert(rest[i - 1] is Err && later[i - 1] is Some);
            }
        }
    }
}

/// A `fetch_update` that succeeds replaced the value that it returns by what the update
/// function answered last: the compare-exchange that succeeded, all the previous ones having
/// failed, is the one that compared with that value, and stored that answer.
pub proof fn law_fetch_update_replaces_what_it_returns<T>(
    prev: T,
    nexts: Seq<Option<T>>,
    exchanges: Seq<Exchange<T>>,
    replies: Seq<Result<T, T>>,
    value: T,
)
    requires
        are_exchanges(prev, nexts, exchanges, replies),
        fetch_update_result(prev, nexts, replies) == Some(Ok::<T, T>(value)),
    ensures
        exists|n: int| #[trigger]
            succeeds_at(nexts, replies, value, n) && exchanges[n].current == value && nexts[n]
                == Some(exchanges[n].new),
{
    law_fetch_update_succeeds_with_an_exchange(prev, nexts, replies, value);
    let n = choose|n: int| succeeds_at(nexts, replies, value, n);
    assert(replies[n] is Ok);
    assert(is_update(exchanges[n], observed(prev, replies, n), nexts[n]->0));
}

/// If the answers of the update function depend on what it is called with alone, a
/// `fetch_update` that succeeds replaced the value that it returns by what the function makes of
/// that value, and one that fails returns a value that the function refuses.
pub proof fn law_fetch_update_applies_the_function<T>(
    f: spec_fn(T) -> Option<T>,
    prev: T,
    nexts: Seq<Option<T>>,
    exchanges: Seq<Exchange<T>>,
    replies: Seq<Result<T, T>>,
    value: T,
)
    requires
        are_exchanges(prev, nexts, exchanges, replies),
        forall|i: int|
            0 <= i < nexts.len() ==> #[trigger] nexts[i] == f(observed(prev, replies, i)),
    ensures
        fetch_update_result(prev, nexts, replies) == Some(Ok::<T, T>(value)) ==> exists|n: int|
            #[trigger] succeeds_at(nexts, replies, value, n) && exchanges[n].current == value
                && f(value) == Some(exchanges[n].new),
        fetch_update_result(prev, nexts, replies) == Some(Err::<T, T>(value)) ==> f(value) is None,
{
    if fetch_update_result(prev, nexts, replies) == Some(Ok::<T, T>(value)) {
        law_fetch_update_replaces_what_it_returns(prev, nexts, exchanges, replies, value);
        let n = choose|n: int| #[trigger]
            succeeds_at(nexts, replies, value, n) && exchanges[n].current == value && nexts[n]
                == Some(exchanges[n].new);
        assert(is_update(exchanges[n], observed(prev, replies, n), nexts[n]->0));
        assert(nexts[n] == f(value));
    }
    if fetch_update_result(prev, nexts, replies) == Some(Err::<T, T>(value)) {
        law_fetch_update_fails_when_refused(prev, nexts, replies, value);
        let n = choose|n: int| refuses_at(prev, nexts, replies, value, n);
        assert(nexts[n] == f(value));
    }
}

/// The failure ordering of a compare-and-swap is the strongest ordering of a load that is not
/// stronger than its ordering.
pub proof fn law_failure_order_is_the_strongest_load_order(order: MemoryOrder, other: MemoryOrder)
    ensures
        suits(OperationKind::Load, failure_order(order)),
        failure_order(order) == order || is_weaker(failure_order(order), order),
        suits(OperationKind::Load, other) && (other == order || is_weaker(other, order)) ==> other
            == failure_order(order) || is_weaker(other, failure_order(order)),
{
}

/// The two orderings of a compare-exchange are downgraded independently: a selection of one of
/// them leaves the other one alone, even if they are the same ordering.
pub proof fn law_orderings_of_an_exchange_are_selected_independently(
    before: Option<Mode>,
    after: Option<Mode>,
    place: Place,
    orders: (MemoryOrder, MemoryOrder),
    used: (MemoryOrder, MemoryOrder),
)
    requires
        resolves_both(before, after, place, orders, used),
    ensures
        before matches Some(Mode::Select { slot, .. }) && !(slot is Success) ==> used.0 == orders.0,
        before matches Some(Mode::Select { slot, .. }) && !(slot is Failure) ==> used.1 == orders.1,
        before is None ==> used == orders,
        before matches Some(Mode::Collect(_)) ==> used == orders,
{
}

/// A load that is not synchronized is traced as one line.
pub proof fn law_unsync_load_is_one_line<T: Numeric>(reply: T)
    ensures
        is_one_line(unsync_load_text(reply)),
{
    reveal_strlit("unsync_load() -> ");
    assert(is_one_line("unsync_load() -> "@));
    reply.lemma_debug_is_one_line();
    lemma_one_line_concat("unsync_load() -> "@, reply.debug());
}

/// A load is traced as one line.
pub proof fn law_load_is_one_line<T: Numeric>(order: MemoryOrder, reply: T)
    ensures
        is_one_line(load_text(order, reply)),
{
    reveal_strlit("load(");
    reveal_strlit(") -> ");
    assert(is_one_line("load("@) && is_one_line(") -> "@));
    lemma_name_is_one_line(order);
    reply.lemma_debug_is_one_line();
    lemma_one_line_concat("load("@, name(order));
    lemma_one_line_concat("load("@ + name(order), ") -> "@);
    lemma_one_line_concat("load("@ + name(order) + ") -> "@, reply.debug());
}

/// A store is traced as one line.
pub proof fn law_store_is_one_line<T: Numeric>(value: T, order: MemoryOrder)
    ensures
        is_one_line(store_text(value, order)),
{
    reveal_strlit("store(");
    reveal_strlit(", ");
    reveal_strlit(")");
    assert(is_one_line("store("@) && is_one_line(", "@) && is_one_line(")"@));
    lemma_name_is_one_line(order);
    value.lemma_debug_is_one_line();
    lemma_one_line_concat("store("@, value.debug());
    lemma_one_line_concat("store("@ + value.debug(), ", "@);
    lemma_one_line_concat("store("@ + value.debug() + ", "@, name(order));
    lemma_one_line_concat("store("@ + value.debug() + ", "@ + name(order), ")"@);
}

/// A read-modify-write is traced as one line, if its name is.
pub proof fn law_rmw_is_one_line<T: Numeric>(op: Seq<char>, arg: T, order: MemoryOrder, reply: T)
    requires
        is_one_line(op),
    ensures
        is_one_line(rmw_text(op, arg, order, reply)),
{
    reveal_strlit("(");
    reveal_strlit(", ");
    reveal_strlit(") -> ");
    assert(is_one_line("("@) && is_one_line(", "@) && is_one_line(") -> "@));
    lemma_name_is_one_line(order);
    arg.lemma_debug_is_one_line();
    reply.lemma_debug_is_one_line();
    lemma_one_line_concat(op, "("@);
    lemma_one_line_concat(op + "("@, arg.debug());
    lemma_one_line_concat(op + "("@ + arg.debug(), ", "@);
    lemma_one_line_concat(op + "("@ + arg.debug() + ", "@, name(order));
    lemma_one_line_concat(op + "("@ + arg.debug() + ", "@ + name(order), ") -> "@);
    lemma_one_line_concat(op + "("@ + arg.debug() + ", "@ + name(order) + ") -> "@, reply.debug());
}

/// A compare-exchange is traced as one line, if its name is.
pub proof fn law_exchange_is_one_line<T: Numeric>(
    op: Seq<char>,
    exchange: Exchange<T>,
    reply: Result<T, T>,
)
    requires
        is_one_line(op),
    ensures
        is_one_line(exchange_text(op, exchange, reply)),
{
    reveal_strlit("(");
    reveal_strlit(", ");
    reveal_strlit(") -> ");
    reveal_strlit("Ok(");
    reveal_strlit("Err(");
    reveal_strlit(")");
    assert(is_one_line("("@) && is_one_line(", "@) && is_one_line(") -> "@));
    assert(is_one_line("Ok("@) && is_one_line("Err("@) && is_one_line(")"@));
    let current = exchange.current.debug();
    let new = exchange.new.debug();
    let success = name(exchange.success);
    let failure = name(exchange.failure);
    let replied = reply_text(reply);
    exchange.current.lemma_debug_is_one_line();
    exchange.new.lemma_debug_is_one_line();
    lemma_name_is_one_line(exchange.success);
    lemma_name_is_one_line(exchange.failure);
    match reply {
        Ok(value) => {
            value.lemma_debug_is_one_line();
            lemma_one_line_concat("Ok("@, value.debug());
            lemma_one_line_concat("Ok("@ + value.debug(), ")"@);
        },
        Err(value) => {
            value.lemma_debug_is_one_line();
            lemma_one_line_concat("Err("@, value.debug());
            lemma_one_line_concat("Err("@ + value.debug(), ")"@);
        },
    }
    let a = op + "("@ + current;
    lemma_one_line_concat(op, "("@);
    lemma_one_line_concat(op + "("@, current);
    let b = a + ", "@ + new;
    lemma_one_line_concat(a, ", "@);
    lemma_one_line_concat(a + ", "@, new);
    let c = b + ", "@ + success;
    lemma_one_line_concat(b, ", "@);
    lemma_one_line_concat(b + ", "@, success);
    let d = c + ", "@ + failure;
    lemma_one_line_concat(c, ", "@);
    lemma_one_line_concat(c + ", "@, failure);
    lemma_one_line_concat(d, ") -> "@);
    lemma_one_line_concat(d + ") -> "@, replied);
}

/// A fence is traced as one line.
pub proof fn law_fence_is_one_line(fence: Fence)
    ensures
        is_one_line(fence_text(fence)),
{
    reveal_strlit("fence(");
    reveal_strlit(")");
    reveal_strlit(") [removed]");
    assert(is_one_line("fence("@) && is_one_line(")"@) && is_one_line(") [removed]"@));
    let order = match fence {
        Fence::Perform { order } => order,
        Fence::Remove { order } => order,
    };
    lemma_name_is_one_line(order);
    lemma_one_line_concat("fence("@, name(order));
    lemma_one_line_concat("fence("@ + name(order), ")"@);
    lemma_one_line_concat("fence("@ + name(order), ") [removed]"@);
}

/// Every operation of one ordering uses the downgrade that is selected for it, whatever the
/// ordering: at the site of the selection, and with the ordering that it downgrades. It keeps its
/// own ordering anywhere else, and if the selection is one of a compare-exchange.
pub proof fn law_selected_operation_uses_the_downgrade(
    site: Site,
    selected: Slot,
    from: MemoryOrder,
    to: MemoryOrder,
    after: Option<Mode>,
    location: Location<'_>,
    order: MemoryOrder,
    used: MemoryOrder,
)
    requires
        resolves(
            mode_of(Some(Downgrade::Select { site, slot: selected, from, to })),
            after,
            location@,
            order,
            used,
        ),
    ensures
        selected is Single && is_at(site, location) && order == from && !(order is Relaxed) ==> used
            == to,
        !(selected is Single) || !is_at(site, location) || order != from || order is Relaxed
            ==> used == order,
        after == mode_of(Some(Downgrade::Select { site, slot: selected, from, to })),
{
    law_selected_ordering_is_downgraded(
        site,
        selected,
        from,
        to,
        location,
        Slot::Single,
        order,
    );
}

/// A compare-exchange uses the downgrade that is selected for its success, or for its failure, at
/// the site of the selection, and with the ordering that it downgrades. It keeps its own
/// orderings anywhere else, and if the selection is one of another operation.
pub proof fn law_selected_exchange_uses_the_downgrade(
    site: Site,
    selected: Slot,
    from: MemoryOrder,
    to: MemoryOrder,
    after: Option<Mode>,
    location: Location<'_>,
    orders: (MemoryOrder, MemoryOrder),
    used: (MemoryOrder, MemoryOrder),
)
    requires
        resolves_both(
            mode_of(Some(Downgrade::Select { site, slot: selected, from, to })),
            after,
            location@,
            orders,
            used,
        ),
    ensures
        selected is Success && is_at(site, location) && orders.0 == from && !(from is Relaxed)
            ==> used.0 == to,
        selected is Failure && is_at(site, location) && orders.1 == from && !(from is Relaxed)
            ==> used.1 == to,
        !(selected is Success) || !is_at(site, location) || orders.0 != from || from is Relaxed
            ==> used.0 == orders.0,
        !(selected is Failure) || !is_at(site, location) || orders.1 != from || from is Relaxed
            ==> used.1 == orders.1,
        after == mode_of(Some(Downgrade::Select { site, slot: selected, from, to })),
{
    law_selected_ordering_is_downgraded(
        site,
        selected,
        from,
        to,
        location,
        Slot::Success,
        orders.0,
    );
    law_selected_ordering_is_downgraded(
        site,
        selected,
        from,
        to,
        location,
        Slot::Failure,
        orders.1,
    );
}

/// Without a variable, an operation uses the orderings that it is given.
pub proof fn law_unselected_operation_keeps_its_orderings(
    after: Option<Mode>,
    after_both: Option<Mode>,
    location: Location<'_>,
    order: MemoryOrder,
    used: MemoryOrder,
    orders: (MemoryOrder, MemoryOrder),
    used_both: (MemoryOrder, MemoryOrder),
)
    requires
        resolves(mode_of(None), after, location@, order, used),
        resolves_both(mode_of(None), after_both, location@, orders, used_both),
    ensures
        used == order,
        used_both == orders,
        after is None,
        after_both is None,
{
}

/// Whether a collecting run that held `before` holds exactly the entries of `added` besides it,
/// in order, and is to write its script again exactly if one of them is new.
pub open spec fn is_collected(before: Collection, after: Option<Mode>, added: Set<Entry>) -> bool {
    &&& after matches Some(Mode::Collect(after))
    &&& forall|e: Entry| #[trigger]
        after.entries.contains(e) <==> before.entries.contains(e) || added.contains(e)
    &&& is_well_formed(after)
    &&& after.outdated <==> before.outdated || exists|e: Entry| #[trigger]
        added.contains(e) && !before.entries.contains(e)
    &&& after.backslash_separates == before.backslash_separates
}

/// The entries of the orderings that an operation at a location collects.
pub open spec fn collectable(
    location: Location<'_>,
    backslash_separates: bool,
    orderings: Set<(Slot, MemoryOrder)>,
) -> Set<Entry> {
    Set::new(
        |e: Entry|
            {
                &&& is_in_scope(location.file@, backslash_separates)
                &&& e.place.file == location.file@
                &&& e.place.line == location.line
                &&& e.place.column == location.column
                &&& orderings.contains((e.slot, e.from)) && !(e.from is Relaxed)
            },
    )
}

/// In a collecting run, an operation of one ordering uses it as it is, and is collected with it;
/// a compare-exchange is collected once with each of its two orderings, told apart by their
/// slots.
pub proof fn law_executed_operation_collects_its_orderings(
    collector: Collector,
    after: Option<Mode>,
    after_both: Option<Mode>,
    location: Location<'_>,
    order: MemoryOrder,
    used: MemoryOrder,
    orders: (MemoryOrder, MemoryOrder),
    used_both: (MemoryOrder, MemoryOrder),
)
    requires
        is_well_formed(collector@),
        resolves(mode_of(Some(Downgrade::Collect(collector))), after, location@, order, used),
        resolves_both(
            mode_of(Some(Downgrade::Collect(collector))),
            after_both,
            location@,
            orders,
            used_both,
        ),
    ensures
        used == order,
        used_both == orders,
        is_collected(
            collector@,
            after,
            collectable(
                location,
                collector@.backslash_separates,
                set![(Slot::Single, order)],
            ),
        ),
        is_collected(
            collector@,
            after_both,
            collectable(
                location,
                collector@.backslash_separates,
                set![(Slot::Success, orders.0), (Slot::Failure, orders.1)],
            ),
        ),
{
    let before = collector@;
    let backslash = before.backslash_separates;
    let single = Entry { place: location@, slot: Slot::Single, from: order };
    let success = Entry { place: location@, slot: Slot::Success, from: orders.0 };
    let failure = Entry { place: location@, slot: Slot::Failure, from: orders.1 };
    let one = collectable(location, backslash, set![(Slot::Single, order)]);
    let both = collectable(
        location,
        backslash,
        set![(Slot::Success, orders.0), (Slot::Failure, orders.1)],
    );
    let collects = is_in_scope(location.file@, backslash);
    assert forall|e: Entry| #[trigger] one.contains(e) <==> collects && !(order is Relaxed) && e
        == single by {
        if one.contains(e) {
            assert(e.place =~= location@);
        }
    }
    assert forall|e: Entry| #[trigger] both.contains(e) <==> collects && {
        ||| !(orders.0 is Relaxed) && e == success
        ||| !(orders.1 is Relaxed) && e == failure
    } by {
        if both.contains(e) {
            assert(e.place =~= location@);
        }
    }
    law_collecting_adds_the_operation(before, location@, Slot::Single, order);
    law_collecting_adds_the_operation(before, location@, Slot::Success, orders.0);
    let between = mode_after(
        Some(Mode::Collect(before)),
        location@,
        Slot::Success,
        orders.0,
    )->0->Collect_0;
    law_collecting_adds_the_operation(between, location@, Slot::Failure, orders.1);
    assert(one.contains(single) <==> collects && !(order is Relaxed));
    assert(both.contains(success) <==> collects && !(orders.0 is Relaxed));
    assert(both.contains(failure) <==> collects && !(orders.1 is Relaxed));
    assert(between.entries.contains(failure) <==> before.entries.contains(failure));
}

/// The arguments of a call, with a `, ` between two of them.
pub open spec fn joined(args: Seq<Seq<char>>) -> Seq<char>
    decreases args.len(),
{
    if args.len() == 0 {
        seq![]
    } else if args.len() == 1 {
        args[0]
    } else {
        args[0] + seq![',', ' '] + joined(args.skip(1))
    }
}

/// A call as it is written in Rust, and what it returns, if it returns something.
pub open spec fn call_text(
    op: Seq<char>,
    args: Seq<Seq<char>>,
    returned: Option<Seq<char>>,
) -> Seq<char> {
    op + seq!['('] + joined(args) + seq![')'] + match returned {
        Some(returned) => seq![' ', '-', '>', ' '] + returned,
        None => seq![],
    }
}

proof fn lemma_joined(a: Seq<char>, b: Seq<char>, c: Seq<char>, d: Seq<char>)
    ensures
        joined(seq![]) == Seq::<char>::empty(),
        joined(seq![a]) == a,
        joined(seq![a, b]) == a + seq![',', ' '] + b,
        joined(seq![a, b, c, d]) == a + seq![',', ' '] + b + seq![',', ' '] + c + seq![',', ' ']
            + d,
{
    assert(seq![a, b].skip(1) =~= seq![b]);
    assert(joined(seq![b]) == b);
    assert(seq![c, d].skip(1) =~= seq![d]);
    assert(joined(seq![d]) == d);
    assert(seq![b, c, d].skip(1) =~= seq![c, d]);
    assert(seq![a, b, c, d].skip(1) =~= seq![b, c, d]);
    assert(joined(seq![c, d]) == c + seq![',', ' '] + d);
    assert(joined(seq![b, c, d]) == b + seq![',', ' '] + joined(seq![c, d]));
    assert(joined(seq![a, b, c, d]) == a + seq![',', ' '] + joined(seq![b, c, d]));
    assert(joined(seq![a, b, c, d]) =~= a + seq![',', ' '] + b + seq![',', ' '] + c + seq![',', ' ']
        + d);
}

proof fn lemma_punctuation()
    ensures
        "("@ == seq!['('],
        ")"@ == seq![')'],
        ", "@ == seq![',', ' '],
        ") -> "@ == seq![')', ' ', '-', '>', ' '],
{
    reveal_strlit("(");
    reveal_strlit(")");
    reveal_strlit(", ");
    reveal_strlit(") -> ");
    assert("("@ =~= seq!['(']);
    assert(")"@ =~= seq![')']);
    assert(", "@ =~= seq![',', ' ']);
    assert(") -> "@ =~= seq![')', ' ', '-', '>', ' ']);
}

/// A load and a store are traced as their calls, with the ordering that they used, and with what
/// was read or stored.
pub proof fn law_loads_and_stores_are_traced_as_calls<T: Numeric>(value: T, order: MemoryOrder)
    ensures
        unsync_load_text(value) == call_text("unsync_load"@, seq![], Some(value.debug())),
        load_text(order, value) == call_text("load"@, seq![name(order)], Some(value.debug())),
        store_text(value, order) == call_text("store"@, seq![value.debug(), name(order)], None),
{
    lemma_punctuation();
    lemma_joined(value.debug(), name(order), seq![], seq![]);
    lemma_joined(name(order), seq![], seq![], seq![]);
    reveal_strlit("unsync_load");
    reveal_strlit("unsync_load() -> ");
    reveal_strlit("load");
    reveal_strlit("load(");
    reveal_strlit("store");
    reveal_strlit("store(");
    assert("unsync_load() -> "@ =~= "unsync_load"@ + seq!['(', ')', ' ', '-', '>', ' ']);
    assert("load("@ =~= "load"@ + seq!['(']);
    assert("store("@ =~= "store"@ + seq!['(']);
    assert(unsync_load_text(value) =~= call_text("unsync_load"@, seq![], Some(value.debug())));
    assert(load_text(order, value) =~= call_text(
        "load"@,
        seq![name(order)],
        Some(value.debug()),
    ));
    assert(store_text(value, order) =~= call_text(
        "store"@,
        seq![value.debug(), name(order)],
        None,
    ));
}

/// A read-modify-write is traced as the call that the tested code made, with its argument, the
/// ordering that it used, and the value that it replaced.
pub proof fn law_rmw_is_traced_as_a_call<T: Numeric>(
    op: Seq<char>,
    arg: T,
    order: MemoryOrder,
    reply: T,
)
    ensures
        rmw_text(op, arg, order, reply) == call_text(
            op,
            seq![arg.debug(), name(order)],
            Some(reply.debug()),
        ),
{
    lemma_punctuation();
    lemma_joined(arg.debug(), name(order), seq![], seq![]);
    assert(rmw_text(op, arg, order, reply) =~= call_text(
        op,
        seq![arg.debug(), name(order)],
        Some(reply.debug()),
    ));
}

/// The `Debug` text of a result: the one of its value, in `Ok(..)` or in `Err(..)`.
pub open spec fn result_text<T: Numeric>(result: Result<T, T>) -> Seq<char> {
    match result {
        Ok(value) => seq!['O', 'k', '('] + value.debug() + seq![')'],
        Err(value) => seq!['E', 'r', 'r', '('] + value.debug() + seq![')'],
    }
}

/// A compare-exchange is traced as the call that the tested code made, with the two values, the
/// two orderings that it used, the one of the success first, and its result.
pub proof fn law_exchange_is_traced_as_a_call<T: Numeric>(
    op: Seq<char>,
    exchange: Exchange<T>,
    reply: Result<T, T>,
)
    ensures
        exchange_text(op, exchange, reply) == call_text(
            op,
            seq![
                exchange.current.debug(),
                exchange.new.debug(),
                name(exchange.success),
                name(exchange.failure),
            ],
            Some(result_text(reply)),
        ),
{
    lemma_punctuation();
    lemma_joined(
        exchange.current.debug(),
        exchange.new.debug(),
        name(exchange.success),
        name(exchange.failure),
    );
    reveal_strlit("Ok(");
    reveal_strlit("Err(");
    assert("Ok("@ =~= seq!['O', 'k', '(']);
    assert("Err("@ =~= seq!['E', 'r', 'r', '(']);
    assert(reply_text(reply) =~= result_text(reply));
    assert(exchange_text(op, exchange, reply) =~= call_text(
        op,
        seq![
            exchange.current.debug(),
            exchange.new.debug(),
            name(exchange.success),
            name(exchange.failure),
        ],
        Some(result_text(reply)),
    ));
}

/// The compare-exchange of a `fetch_update` is traced as such, with the value that the update
/// function was called with and the one that it answered.
pub proof fn law_update_is_traced_as_a_compare_exchange<T: Numeric>(
    exchange: Exchange<T>,
    prev: T,
    next: T,
    reply: Result<T, T>,
)
    requires
        is_update(exchange, prev, next),
    ensures
        exchange_text(exchange.op@, exchange, reply) == call_text(
            "compare_exchange"@,
            seq![prev.debug(), next.debug(), name(exchange.success), name(exchange.failure)],
            Some(result_text(reply)),
        ),
{
    law_exchange_is_traced_as_a_call(exchange.op@, exchange, reply);
}

/// A fence is traced as its call with the ordering that it used; one that was removed is traced
/// with the ordering that it was given, and marked.
pub proof fn law_fence_is_traced_as_a_call(order: MemoryOrder)
    ensures
        fence_text(Fence::Perform { order }) == call_text("fence"@, seq![name(order)], None),
        fence_text(Fence::Remove { order }) == call_text("fence"@, seq![name(order)], None)
            + " [removed]"@,
{
    lemma_punctuation();
    lemma_joined(name(order), seq![], seq![], seq![]);
    reveal_strlit("fence");
    reveal_strlit("fence(");
    reveal_strlit(") [removed]");
    reveal_strlit(" [removed]");
    assert("fence("@ =~= "fence"@ + seq!['(']);
    assert(") [removed]"@ =~= seq![')'] + " [removed]"@);
    let call = call_text("fence"@, seq![name(order)], None);
    assert(fence_text(Fence::Perform { order }) =~= call);
    assert(fence_text(Fence::Remove { order }) =~= call + " [removed]"@);
}

/// What surrounds the first occurrence of a character is determined.
proof fn lemma_first(c: char, a: Seq<char>, x: Seq<char>, b: Seq<char>, y: Seq<char>)
    requires
        a + seq![c] + x == b + seq![c] + y,
        !a.contains(c),
        !b.contains(c),
    ensures
        a == b,
        x == y,
{
    let s = a + seq![c] + x;
    let t = b + seq![c] + y;
    if a.len() < b.len() {
        assert(s[a.len() as int] == c);
        assert(t[a.len() as int] == b[a.len() as int]);
    }
    if b.len() < a.len() {
        assert(t[b.len() as int] == c);
        assert(s[b.len() as int] == a[b.len() as int]);
    }
    assert(a =~= s.take(a.len() as int));
    assert(b =~= t.take(b.len() as int));
    assert(x =~= s.skip(a.len() as int + 1));
    assert(y =~= t.skip(b.len() as int + 1));
}

/// What follows a common beginning is determined.
proof fn lemma_same_rest(start: Seq<char>, x: Seq<char>, y: Seq<char>)
    requires
        start + x == start + y,
    ensures
        x == y,
{
    assert(x =~= (start + x).skip(start.len() as int));
    assert(y =~= (start + y).skip(start.len() as int));
}

/// A name of an ordering can be told from what surrounds it in a call.
proof fn lemma_name_is_plain(order: MemoryOrder)
    ensures
        is_plain(name(order)),
{
    reveal_strlit("Relaxed");
    reveal_strlit("Acquire");
    reveal_strlit("Release");
    reveal_strlit("AcqRel");
    reveal_strlit("SeqCst");
}

/// The line of a load tells the ordering that it used and the value that it read; that of a load
/// that is not synchronized tells the value.
pub proof fn law_load_line_tells_the_load<T: Numeric>(
    order: MemoryOrder,
    reply: T,
    other_order: MemoryOrder,
    other_reply: T,
)
    ensures
        load_text(order, reply) == load_text(other_order, other_reply) ==> order == other_order
            && reply == other_reply,
        unsync_load_text(reply) == unsync_load_text(other_reply) ==> reply == other_reply,
{
    if load_text(order, reply) == load_text(other_order, other_reply) {
        lemma_punctuation();
        lemma_name_is_plain(order);
        lemma_name_is_plain(other_order);
        let arrow = seq![' ', '-', '>', ' '];
        let x = name(order) + seq![')'] + (arrow + reply.debug());
        let y = name(other_order) + seq![')'] + (arrow + other_reply.debug());
        assert(load_text(order, reply) =~= "load("@ + x);
        assert(load_text(other_order, other_reply) =~= "load("@ + y);
        lemma_same_rest("load("@, x, y);
        lemma_first(
            ')',
            name(order),
            arrow + reply.debug(),
            name(other_order),
            arrow + other_reply.debug(),
        );
        lemma_same_rest(arrow, reply.debug(), other_reply.debug());
        law_names_differ(order, other_order);
        reply.lemma_debug_determines(other_reply);
    }
    if unsync_load_text(reply) == unsync_load_text(other_reply) {
        lemma_same_rest("unsync_load() -> "@, reply.debug(), other_reply.debug());
        reply.lemma_debug_determines(other_reply);
    }
}

/// The line of a store tells the value that was stored and the ordering that it used.
pub proof fn law_store_line_tells_the_store<T: Numeric>(
    value: T,
    order: MemoryOrder,
    other_value: T,
    other_order: MemoryOrder,
)
    requires
        store_text(value, order) == store_text(other_value, other_order),
    ensures
        value == other_value,
        order == other_order,
{
    lemma_punctuation();
    value.lemma_debug_is_plain();
    other_value.lemma_debug_is_plain();
    let end = seq![' '] + name(order) + seq![')'];
    let other_end = seq![' '] + name(other_order) + seq![')'];
    let x = value.debug() + seq![','] + end;
    let y = other_value.debug() + seq![','] + other_end;
    assert(store_text(value, order) =~= "store("@ + x);
    assert(store_text(other_value, other_order) =~= "store("@ + y);
    lemma_same_rest("store("@, x, y);
    lemma_first(',', value.debug(), end, other_value.debug(), other_end);
    assert(name(order) =~= end.skip(1).drop_last());
    assert(name(other_order) =~= other_end.skip(1).drop_last());
    law_names_differ(order, other_order);
    value.lemma_debug_determines(other_value);
}

/// The line of a read-modify-write tells its name, its argument, the ordering that it used and
/// the value that it replaced, if the name has no `(`.
pub proof fn law_rmw_line_tells_the_operation<T: Numeric>(a: Rmw<T>, reply: T, b: Rmw<T>, other: T)
    requires
        !a.op@.contains('('),
        !b.op@.contains('('),
        rmw_text(a.op@, a.arg, a.order, reply) == rmw_text(b.op@, b.arg, b.order, other),
    ensures
        a.op@ == b.op@,
        a.arg == b.arg,
        a.order == b.order,
        reply == other,
{
    lemma_punctuation();
    a.arg.lemma_debug_is_plain();
    b.arg.lemma_debug_is_plain();
    lemma_name_is_plain(a.order);
    lemma_name_is_plain(b.order);
    let arrow = seq![' ', '-', '>', ' '];
    let x3 = arrow + reply.debug();
    let y3 = arrow + other.debug();
    let x2 = name(a.order) + seq![')'] + x3;
    let y2 = name(b.order) + seq![')'] + y3;
    let x1 = a.arg.debug() + seq![','] + (seq![' '] + x2);
    let y1 = b.arg.debug() + seq![','] + (seq![' '] + y2);
    assert(rmw_text(a.op@, a.arg, a.order, reply) =~= a.op@ + seq!['('] + x1);
    assert(rmw_text(b.op@, b.arg, b.order, other) =~= b.op@ + seq!['('] + y1);
    lemma_first('(', a.op@, x1, b.op@, y1);
    lemma_first(',', a.arg.debug(), seq![' '] + x2, b.arg.debug(), seq![' '] + y2);
    lemma_same_rest(seq![' '], x2, y2);
    lemma_first(')', name(a.order), x3, name(b.order), y3);
    lemma_same_rest(arrow, reply.debug(), other.debug());
    law_names_differ(a.order, b.order);
    a.arg.lemma_debug_determines(b.arg);
    reply.lemma_debug_determines(other);
}

/// The `Debug` text of a result tells the result.
proof fn lemma_result_text_determines<T: Numeric>(a: Result<T, T>, b: Result<T, T>)
    requires
        result_text(a) == result_text(b),
    ensures
        a == b,
{
    assert(result_text(a)[0] == if a is Ok {
        'O'
    } else {
        'E'
    });
    assert(result_text(b)[0] == if b is Ok {
        'O'
    } else {
        'E'
    });
    match (a, b) {
        (Ok(x), Ok(y)) => {
            assert(x.debug() =~= result_text(a).skip(3).drop_last());
            assert(y.debug() =~= result_text(b).skip(3).drop_last());
            x.lemma_debug_determines(y);
        },
        (Err(x), Err(y)) => {
            assert(x.debug() =~= result_text(a).skip(4).drop_last());
            assert(y.debug() =~= result_text(b).skip(4).drop_last());
            x.lemma_debug_determines(y);
        },
        _ => {},
    }
}

/// What follows an argument, and the argument itself, are determined.
proof fn lemma_first_argument(a: Seq<char>, x: Seq<char>, b: Seq<char>, y: Seq<char>)
    requires
        a + seq![',', ' '] + x == b + seq![',', ' '] + y,
        is_plain(a),
        is_plain(b),
    ensures
        a == b,
        x == y,
{
    assert(a + seq![',', ' '] + x =~= a + seq![','] + (seq![' '] + x));
    assert(b + seq![',', ' '] + y =~= b + seq![','] + (seq![' '] + y));
    lemma_first(',', a, seq![' '] + x, b, seq![' '] + y);
    lemma_same_rest(seq![' '], x, y);
}

/// A call with arguments is its first argument, and a call with the other ones.
proof fn lemma_joined_first(args: Seq<Seq<char>>, end: Seq<char>)
    requires
        args.len() > 1,
    ensures
        joined(args) + end == args[0] + seq![',', ' '] + (joined(args.skip(1)) + end),
{
    assert(joined(args) + end =~= args[0] + seq![',', ' '] + (joined(args.skip(1)) + end));
}

/// The arguments of a call and what it returns are determined.
proof fn lemma_arguments_determined(
    a: Seq<Seq<char>>,
    x: Seq<char>,
    b: Seq<Seq<char>>,
    y: Seq<char>,
)
    requires
        a.len() == b.len() > 0,
        joined(a) + (seq![')'] + x) == joined(b) + (seq![')'] + y),
        forall|i: int| 0 <= i < a.len() ==> is_plain(#[trigger] a[i]),
        forall|i: int| 0 <= i < b.len() ==> is_plain(#[trigger] b[i]),
    ensures
        a == b,
        x == y,
    decreases a.len(),
{
    if a.len() == 1 {
        assert(is_plain(a[0]) && is_plain(b[0]));
        assert(a[0] + (seq![')'] + x) =~= a[0] + seq![')'] + x);
        assert(b[0] + (seq![')'] + y) =~= b[0] + seq![')'] + y);
        lemma_first(')', a[0], x, b[0], y);
        assert(a =~= b);
    } else {
        lemma_joined_first(a, seq![')'] + x);
        lemma_joined_first(b, seq![')'] + y);
        assert(is_plain(a[0]) && is_plain(b[0]));
        let a1 = a.skip(1);
        let b1 = b.skip(1);
        lemma_first_argument(
            a[0],
            joined(a1) + (seq![')'] + x),
            b[0],
            joined(b1) + (seq![')'] + y),
        );
        assert forall|i: int| 0 <= i < a1.len() implies is_plain(#[trigger] a1[i]) by {
            assert(is_plain(a[i + 1]));
        }
        assert forall|i: int| 0 <= i < b1.len() implies is_plain(#[trigger] b1[i]) by {
            assert(is_plain(b[i + 1]));
        }
        lemma_arguments_determined(a1, x, b1, y);
        assert(a =~= seq![a[0]] + a1);
        assert(b =~= seq![b[0]] + b1);
    }
}

/// The line of a call tells its name, its arguments and what it returns, if the name has no `(`,
/// the arguments have no punctuation, and as many are expected.
pub proof fn law_line_tells_the_call(
    op: Seq<char>,
    args: Seq<Seq<char>>,
    returned: Seq<char>,
    other_op: Seq<char>,
    other_args: Seq<Seq<char>>,
    other_returned: Seq<char>,
)
    requires
        args.len() == other_args.len() > 0,
        !op.contains('('),
        !other_op.contains('('),
        forall|i: int| 0 <= i < args.len() ==> is_plain(#[trigger] args[i]),
        forall|i: int| 0 <= i < other_args.len() ==> is_plain(#[trigger] other_args[i]),
        call_text(op, args, Some(returned)) == call_text(
            other_op,
            other_args,
            Some(other_returned),
        ),
    ensures
        op == other_op,
        args == other_args,
        returned == other_returned,
{
    let arrow = seq![' ', '-', '>', ' '];
    let x = joined(args) + (seq![')'] + (arrow + returned));
    let y = joined(other_args) + (seq![')'] + (arrow + other_returned));
    assert(call_text(op, args, Some(returned)) =~= op + seq!['('] + x);
    assert(call_text(other_op, other_args, Some(other_returned)) =~= other_op + seq!['('] + y);
    lemma_first('(', op, x, other_op, y);
    lemma_arguments_determined(args, arrow + returned, other_args, arrow + other_returned);
    lemma_same_rest(arrow, returned, other_returned);
}

/// The arguments of a compare-exchange, as they are traced.
pub open spec fn exchange_arguments<T: Numeric>(exchange: Exchange<T>) -> Seq<Seq<char>> {
    seq![
        exchange.current.debug(),
        exchange.new.debug(),
        name(exchange.success),
        name(exchange.failure),
    ]
}

proof fn lemma_exchange_arguments_are_plain<T: Numeric>(exchange: Exchange<T>)
    ensures
        forall|i: int|
            0 <= i < exchange_arguments(exchange).len() ==> is_plain(
                #[trigger] exchange_arguments(exchange)[i],
            ),
{
    exchange.current.lemma_debug_is_plain();
    exchange.new.lemma_debug_is_plain();
    lemma_name_is_plain(exchange.success);
    lemma_name_is_plain(exchange.failure);
}

/// The line of a compare-exchange tells its name, the two values, the two orderings that it used
/// and its result, if the name has no `(`.
pub proof fn law_exchange_line_tells_the_operation<T: Numeric>(
    a: Exchange<T>,
    reply: Result<T, T>,
    b: Exchange<T>,
    other: Result<T, T>,
)
    requires
        !a.op@.contains('('),
        !b.op@.contains('('),
        exchange_text(a.op@, a, reply) == exchange_text(b.op@, b, other),
    ensures
        a.op@ == b.op@,
        a.current == b.current,
        a.new == b.new,
        a.success == b.success,
        a.failure == b.failure,
        reply == other,
{
    law_exchange_is_traced_as_a_call(a.op@, a, reply);
    law_exchange_is_traced_as_a_call(b.op@, b, other);
    lemma_exchange_arguments_are_plain(a);
    lemma_exchange_arguments_are_plain(b);
    let x = exchange_arguments(a);
    let y = exchange_arguments(b);
    law_line_tells_the_call(a.op@, x, result_text(reply), b.op@, y, result_text(other));
    assert(x[0] == y[0] && x[1] == y[1] && x[2] == y[2] && x[3] == y[3]);
    lemma_result_text_determines(reply, other);
    law_names_differ(a.success, b.success);
    law_names_differ(a.failure, b.failure);
    a.current.lemma_debug_determines(b.current);
    a.new.lemma_debug_determines(b.new);
}

/// The line of a fence tells whether it was removed, and its ordering.
pub proof fn law_fence_line_tells_the_fence(a: Fence, b: Fence)
    requires
        fence_text(a) == fence_text(b),
    ensures
        a == b,
{
    lemma_punctuation();
    reveal_strlit(") [removed]");
    let order = match a {
        Fence::Perform { order } => order,
        Fence::Remove { order } => order,
    };
    let other = match b {
        Fence::Perform { order } => order,
        Fence::Remove { order } => order,
    };
    let mark = if a is Perform {
        seq![]
    } else {
        ") [removed]"@.skip(1)
    };
    let other_mark = if b is Perform {
        seq![]
    } else {
        ") [removed]"@.skip(1)
    };
    assert(") [removed]"@ =~= seq![')'] + ") [removed]"@.skip(1));
    assert(fence_text(a) =~= "fence("@ + (name(order) + seq![')'] + mark));
    assert(fence_text(b) =~= "fence("@ + (name(other) + seq![')'] + other_mark));
    lemma_same_rest(
        "fence("@,
        name(order) + seq![')'] + mark,
        name(other) + seq![')'] + other_mark,
    );
    lemma_name_is_plain(order);
    lemma_name_is_plain(other);
    lemma_first(')', name(order), mark, name(other), other_mark);
    law_names_differ(order, other);
}

} // verus!
