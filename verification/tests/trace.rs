use loom::rt::Location;
use loom::trace::{enabled, new_iteration, trace, write_at};
use std::cell::Cell;

const STORE: Location<'static> = Location { file: "src/lib.rs", line: 393, column: 36 };
const LOAD: Location<'static> = Location { file: "src/lib.rs", line: 506, column: 36 };

#[test]
fn traces_an_iteration() {
    let mut state = trace(true);
    assert!(enabled(&state));
    write_at(&mut state, &STORE, Some(3), || "store(1, SeqCst)".to_string());
    let mut file = new_iteration(&mut state, 42).unwrap();
    file += &write_at(&mut state, &STORE, Some(0), || "store(3, SeqCst)".to_string()).unwrap();
    file += &write_at(&mut state, &LOAD, Some(1), || "fence(SeqCst)".to_string()).unwrap();
    file += &write_at(&mut state, &LOAD, Some(1), || "load(SeqCst) -> 3".to_string()).unwrap();
    assert_eq!(
        file,
        "\
============================== iteration 42 ==============================
================================ thread 0 ================================
src/lib.rs:393:36: store(3, SeqCst)
================================ thread 1 ================================
src/lib.rs:506:36: fence(SeqCst)
src/lib.rs:506:36: load(SeqCst) -> 3
"
    );
}

#[test]
fn nothing_is_traced_unless_enabled() {
    let mut state = trace(false);
    assert!(!enabled(&state));
    assert!(new_iteration(&mut state, 1).is_none());
    let formatted = Cell::new(0);
    let line = || {
        formatted.set(formatted.get() + 1);
        "x".to_string()
    };
    assert!(write_at(&mut state, &STORE, Some(0), line).is_none());
    assert!(loom::trace::write(&mut state, &STORE, None, line).is_none());
    assert_eq!(formatted.get(), 0);
    let mut on = trace(true);
    assert!(write_at(&mut on, &STORE, Some(0), line).is_some());
    assert!(loom::trace::write(&mut on, &STORE, None, line).is_some());
    assert_eq!(formatted.get(), 2);
    assert!(!enabled(&state));
}

#[test]
fn a_separator_is_written_when_the_thread_changes() {
    let mut state = trace(true);
    new_iteration(&mut state, 1);
    let zero = "================================ thread 0 ================================\n";
    let unknown = "============================= unknown thread =============================\n";
    let line = "src/lib.rs:393:36: x\n";
    let mut next =
        |thread| loom::trace::write(&mut state, &STORE, thread, || "x".to_string()).unwrap();
    assert_eq!(next(Some(0)), format!("{zero}{line}"));
    assert_eq!(next(Some(0)), line);
    assert_eq!(next(None), format!("{unknown}{line}"));
    assert_eq!(next(None), line);
    assert_eq!(next(Some(0)), format!("{zero}{line}"));
}

#[test]
fn a_separator_is_written_for_the_first_line_of_an_iteration() {
    let mut state = trace(true);
    for thread in [Some(7), None] {
        for _ in 0..2 {
            new_iteration(&mut state, 1);
            let text = write_at(&mut state, &LOAD, thread, || "x".to_string()).unwrap();
            assert_eq!(text.lines().count(), 2, "{text}");
        }
    }
}

#[test]
fn separators_are_as_wide_as_a_terminal() {
    let mut state = trace(true);
    for iteration in [0, 9, 10, 1234, usize::MAX] {
        let line = new_iteration(&mut state, iteration).unwrap();
        assert_eq!(line.len(), 75, "{line}");
        assert!(line.ends_with("=\n"));
        let text = line.trim_matches(|c| c == '=' || c == '\n');
        assert_eq!(text, format!(" iteration {iteration} "));
    }
    // An odd padding is longer on the right.
    assert_eq!(
        new_iteration(&mut state, 7).unwrap(),
        "============================== iteration 7 ===============================\n"
    );
}

#[test]
fn a_line_is_appended_as_it_is() {
    let mut state = trace(true).unwrap();
    state.append_line(&STORE, Some(1), "x");
    assert_eq!(state.append_line(&LOAD, Some(1), "a: b"), "src/lib.rs:506:36: a: b\n");
}
