use loom::downgrade::{downgrade, Downgrade};
use loom::order::MemoryOrder;
use loom::rt::{Location, Numeric};
use loom::sync::atomic::atomic::{Atomic, Exchange, FetchUpdate};
use loom::sync::atomic::{fence, spin_loop_hint, Fence, Scheduling};

const AT: Location<'static> = Location { file: "src/lib.rs", line: 5, column: 9 };

fn select(value: &str) -> Option<Downgrade> {
    downgrade(Some(value)).unwrap()
}

fn debug<T: Numeric>(value: T) -> String {
    let mut out = String::new();
    value.push_debug(&mut out);
    out
}

#[test]
fn values_are_written_as_debug_does() {
    assert_eq!(debug(200u8), "200");
    assert_eq!(debug(u16::MAX), format!("{:?}", u16::MAX));
    assert_eq!(debug(70000u32), "70000");
    assert_eq!(debug(u64::MAX), format!("{:?}", u64::MAX));
    assert_eq!(debug(12usize), "12");
    assert_eq!(debug(i8::MIN), "-128");
    assert_eq!(debug(-1i16), "-1");
    assert_eq!(debug(0i32), "0");
    assert_eq!(debug(i64::MIN), format!("{:?}", i64::MIN));
    assert_eq!(debug(-7isize), "-7");
    assert_eq!(debug(true), "true");
    assert_eq!(debug(false), "false");
    assert!(3u8.equals(3) && !3u8.equals(4) && !true.equals(false));
}

#[test]
fn operations_are_traced() {
    let mut none = None;
    let atomic = Atomic::new("state");
    assert_eq!(*atomic.state(), "state");
    assert_eq!(atomic.unsync_load().line(3u8), "unsync_load() -> 3");
    let load = atomic.load(&mut none, &AT, MemoryOrder::SeqCst);
    assert_eq!(load.line(3u8), "load(SeqCst) -> 3");
    let store = atomic.store(&mut none, &AT, -3i8, MemoryOrder::Release);
    assert_eq!(store.line(), "store(-3, Release)");
    let add = atomic.rmw(&mut none, &AT, "fetch_add", 1usize, MemoryOrder::AcqRel);
    assert_eq!(add.orders(), (MemoryOrder::AcqRel, MemoryOrder::AcqRel));
    assert_eq!(add.update(|v| v + 1, 41), Ok(42));
    assert_eq!(add.line(41), "fetch_add(1, AcqRel) -> 41");
    let swap = atomic.swap(&mut none, &AT, true, MemoryOrder::Acquire);
    assert!(swap.swapped(false));
    assert_eq!(swap.line(false), "swap(true, Acquire) -> false");
}

#[test]
fn state_is_accessed_exclusively() {
    let mut atomic = Atomic::new(1);
    *atomic.with_mut() += 1;
    assert_eq!(*atomic.state(), 2);
}

#[test]
fn compare_exchange_replaces_the_current_value_only() {
    let atomic = Atomic::new(());
    let exchange = atomic.compare_exchange(
        &mut None,
        &AT,
        1u32,
        2,
        MemoryOrder::AcqRel,
        MemoryOrder::Acquire,
    );
    assert_eq!(exchange.decide(1), Ok(2));
    assert_eq!(exchange.decide(7), Err(7));
    assert_eq!(exchange.line(Ok(1)), "compare_exchange(1, 2, AcqRel, Acquire) -> Ok(1)");
    assert_eq!(exchange.line(Err(7)), "compare_exchange(1, 2, AcqRel, Acquire) -> Err(7)");
    let weak = atomic.compare_exchange_named(
        &mut None,
        &AT,
        "compare_exchange_weak",
        false,
        true,
        MemoryOrder::SeqCst,
        MemoryOrder::Relaxed,
    );
    assert_eq!(
        weak.line(Ok(false)),
        "compare_exchange_weak(false, true, SeqCst, Relaxed) -> Ok(false)"
    );
}

#[test]
fn compare_and_swap_chooses_its_failure_ordering() {
    let atomic = Atomic::new(());
    for (order, failure) in [
        (MemoryOrder::Relaxed, MemoryOrder::Relaxed),
        (MemoryOrder::Release, MemoryOrder::Relaxed),
        (MemoryOrder::Acquire, MemoryOrder::Acquire),
        (MemoryOrder::AcqRel, MemoryOrder::Acquire),
        (MemoryOrder::SeqCst, MemoryOrder::SeqCst),
    ] {
        let exchange = atomic.compare_and_swap(&mut None, &AT, 1u8, 2, order);
        assert_eq!((exchange.success, exchange.failure), (order, failure));
        assert_eq!(exchange.op, "compare_and_swap");
        assert_eq!(atomic.compare_and_swap_result(Ok(1u8)), 1);
        assert_eq!(atomic.compare_and_swap_result(Err(5u8)), 5);
    }
}

#[test]
fn operations_use_the_downgraded_ordering() {
    let atomic = Atomic::new(());
    let mut single = select("src/lib.rs:5:9:SeqCst:Acquire");
    assert_eq!(
        atomic.load(&mut single, &AT, MemoryOrder::SeqCst).line(1u8),
        "load(Acquire) -> 1"
    );
    assert_eq!(
        atomic.store(&mut single, &AT, 1u8, MemoryOrder::SeqCst).order,
        MemoryOrder::Acquire
    );
    assert_eq!(
        atomic.rmw(&mut single, &AT, "fetch_or", 1u8, MemoryOrder::SeqCst).order,
        MemoryOrder::Acquire
    );
    let both = |selection: &mut Option<Downgrade>| {
        let exchange = atomic.compare_exchange(
            selection,
            &AT,
            1u8,
            2,
            MemoryOrder::SeqCst,
            MemoryOrder::SeqCst,
        );
        (exchange.success, exchange.failure)
    };
    assert_eq!(both(&mut single), (MemoryOrder::SeqCst, MemoryOrder::SeqCst));
    assert_eq!(
        both(&mut select("src/lib.rs:5:9:success:SeqCst:AcqRel")),
        (MemoryOrder::AcqRel, MemoryOrder::SeqCst)
    );
    assert_eq!(
        both(&mut select("src/lib.rs:5:9:failure:SeqCst:Acquire")),
        (MemoryOrder::SeqCst, MemoryOrder::Acquire)
    );
}

#[test]
fn an_exchange_is_collected_with_both_its_orderings() {
    let atomic = Atomic::new(());
    let mut collecting = select("collect");
    atomic.compare_exchange(
        &mut collecting,
        &AT,
        1u8,
        2,
        MemoryOrder::Release,
        MemoryOrder::Acquire,
    );
    let script = match &mut collecting {
        Some(Downgrade::Collect(collector)) => collector.take_script(None).unwrap(),
        other => panic!("{other:?}"),
    };
    assert!(script.contains(
        "(\n    'src/lib.rs:5:9:success:Release:Relaxed'\n    \
         'src/lib.rs:5:9:failure:Acquire:Relaxed'\n)\n"
    ));
}

/// Runs a `fetch_update` against the values that its operations find.
fn fetch_update(
    found: &[u8],
    mut f: impl FnMut(u8) -> Option<u8>,
) -> (Result<u8, u8>, Vec<String>) {
    let atomic = Atomic::new(());
    let mut none = None;
    let mut found = found.iter().copied();
    let mut lines = Vec::new();
    let load = atomic.fetch_update(&mut none, &AT, MemoryOrder::Acquire);
    let read = found.next().unwrap();
    lines.push(load.line(read));
    let mut prev = match FetchUpdate::loaded(read) {
        FetchUpdate::Update(prev) => prev,
        _ => unreachable!(),
    };
    loop {
        let step = atomic.fetch_updated(
            &mut none,
            &AT,
            MemoryOrder::Release,
            MemoryOrder::Acquire,
            prev,
            f(prev),
        );
        let exchange: Exchange<u8> = match step {
            FetchUpdate::Exchange(exchange) => exchange,
            FetchUpdate::Return(result) => return (result, lines),
            FetchUpdate::Update(_) => unreachable!(),
        };
        let actual = found.next().unwrap();
        let reply = exchange.decide(actual).map(|_| actual);
        lines.push(exchange.line(reply));
        match FetchUpdate::exchanged(reply) {
            FetchUpdate::Update(next) => prev = next,
            FetchUpdate::Return(result) => return (result, lines),
            FetchUpdate::Exchange(_) => unreachable!(),
        }
    }
}

#[test]
fn fetch_update_retries_until_it_replaces_the_value() {
    let (result, lines) = fetch_update(&[1, 2, 2], |v| Some(v + 10));
    assert_eq!(result, Ok(2));
    assert_eq!(
        lines,
        [
            "load(Acquire) -> 1",
            "compare_exchange(1, 11, Release, Acquire) -> Err(2)",
            "compare_exchange(2, 12, Release, Acquire) -> Ok(2)",
        ]
    );
}

#[test]
fn fetch_update_stores_the_last_answer() {
    let mut answer = 10;
    let (result, lines) = fetch_update(&[1, 2, 2], |_| {
        answer += 1;
        Some(answer)
    });
    assert_eq!(result, Ok(2));
    assert_eq!(
        lines,
        [
            "load(Acquire) -> 1",
            "compare_exchange(1, 11, Release, Acquire) -> Err(2)",
            "compare_exchange(2, 12, Release, Acquire) -> Ok(2)",
        ]
    );
    let mut calls = 0;
    let (result, lines) = fetch_update(&[7, 8], |v| {
        calls += 1;
        if calls == 1 {
            Some(v)
        } else {
            None
        }
    });
    assert_eq!(result, Err(8));
    assert_eq!(lines.len(), 2);
}

#[test]
fn fetch_update_gives_up_when_refused() {
    let below = |v: u8| if v < 3 { Some(v + 1) } else { None };
    assert_eq!(fetch_update(&[3], below), (Err(3), vec!["load(Acquire) -> 3".to_string()]));
    let (result, lines) = fetch_update(&[0, 1, 4], below);
    assert_eq!(result, Err(4));
    assert_eq!(lines.len(), 3);
}

#[test]
fn fences_are_downgraded_or_removed() {
    let mut none = None;
    let performed = fence(&mut none, &AT, MemoryOrder::SeqCst);
    assert_eq!(performed, Fence::Perform { order: MemoryOrder::SeqCst });
    assert_eq!(performed.line(), "fence(SeqCst)");
    let weaker = fence(&mut select("src/lib.rs:5:9:SeqCst:AcqRel"), &AT, MemoryOrder::SeqCst);
    assert_eq!(weaker.line(), "fence(AcqRel)");
    let removed = fence(&mut select("src/lib.rs:5:9:Acquire:Relaxed"), &AT, MemoryOrder::Acquire);
    assert_eq!(removed, Fence::Remove { order: MemoryOrder::Acquire });
    assert_eq!(removed.line(), "fence(Acquire) [removed]");
    // A relaxed fence is not removed, the runtime rejects it.
    assert_eq!(
        fence(&mut select("src/lib.rs:5:9:Acquire:Relaxed"), &AT, MemoryOrder::Relaxed),
        Fence::Perform { order: MemoryOrder::Relaxed }
    );
}

#[test]
fn a_spin_loop_yields() {
    assert_eq!(spin_loop_hint(), Scheduling::Yield);
}
