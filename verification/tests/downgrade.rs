use loom::downgrade::site::Site;
use loom::downgrade::slot::Slot;
use loom::downgrade::{apply, downgrade, is_downgradable, Downgrade, InvalidDowngrade};
use loom::order::MemoryOrder;
use loom::rt::Location;

fn at(file: &'static str, line: u32, column: u32) -> Location<'static> {
    Location { file, line, column }
}

/// The fields of a selection.
fn selected(var: &str) -> (String, u32, u32, Slot, MemoryOrder, MemoryOrder) {
    match downgrade(Some(var)) {
        Ok(Some(Downgrade::Select { site, slot, from, to })) => {
            (site.file, site.line, site.column, slot, from, to)
        }
        other => panic!("{var:?} selects nothing: {other:?}"),
    }
}

#[test]
fn nothing_is_downgraded_by_default() {
    assert!(matches!(downgrade(None), Ok(None)));
    let mut none = None;
    let location = at("src/lib.rs", 1, 2);
    let used = apply(&mut none, &location, MemoryOrder::SeqCst, Slot::Single);
    assert_eq!(used, MemoryOrder::SeqCst);
    assert!(none.is_none());
}

#[test]
fn selects_an_operation_of_one_ordering() {
    assert_eq!(
        selected("src/lib.rs:393:36:SeqCst:AcqRel"),
        ("src/lib.rs".into(), 393, 36, Slot::Single, MemoryOrder::SeqCst, MemoryOrder::AcqRel)
    );
}

#[test]
fn selects_an_ordering_of_a_compare_exchange() {
    assert_eq!(
        selected("src/lib.rs:506:36:success:AcqRel:Release"),
        ("src/lib.rs".into(), 506, 36, Slot::Success, MemoryOrder::AcqRel, MemoryOrder::Release)
    );
    assert_eq!(
        selected("src/lib.rs:506:36:failure:Acquire:Relaxed"),
        ("src/lib.rs".into(), 506, 36, Slot::Failure, MemoryOrder::Acquire, MemoryOrder::Relaxed)
    );
}

#[test]
fn a_file_can_contain_a_colon() {
    assert_eq!(
        selected("C:\\src:1:2\\lib.rs:3:4:Acquire:Relaxed").0,
        "C:\\src:1:2\\lib.rs"
    );
    assert_eq!(selected(":+3:04:Acquire:Relaxed").0, "");
}

#[test]
fn collect_mode_starts_without_operations() {
    match downgrade(Some("collect")) {
        Ok(Some(Downgrade::Collect(mut collector))) => {
            assert!(collector.take_script(None).is_none());
        }
        other => panic!("{other:?}"),
    }
}

#[test]
fn values_without_the_format_are_rejected() {
    for var in [
        "",
        "Collect",
        "Acquire",
        "Acquire:Relaxed",
        "src/lib.rs:Acquire:Relaxed",
        "src/lib.rs:1:x:Acquire:Relaxed",
        "src/lib.rs:1:2:single:Acquire:Relaxed",
        "src/lib.rs:1:2:Acquire:relaxed",
        "src/lib.rs:1:2:Acq:Relaxed",
        "src/lib.rs:1:2:success:Acq:Relaxed",
    ] {
        assert!(
            matches!(downgrade(Some(var)), Err(InvalidDowngrade::Variable)),
            "{var:?}"
        );
    }
}

#[test]
fn values_without_a_site_are_rejected() {
    for (var, invalid) in [
        ("12:Acquire:Relaxed", ""),
        ("lib.rs:2:Acquire:Relaxed", "lib.rs:2"),
        ("lib.rs:x:2:Acquire:Relaxed", "lib.rs:x:2"),
        ("lib.rs:4294967296:2:Acquire:Relaxed", "lib.rs:4294967296:2"),
        ("lib.rs:2:success:Acquire:Relaxed", "lib.rs:2"),
        ("lib.rs:1:x:success:Acquire:Relaxed", "lib.rs:1:x"),
        // The site is looked at before the orderings are.
        ("lib.rs:x:2:Acq:Relaxed", "lib.rs:x:2"),
    ] {
        match downgrade(Some(var)) {
            Err(InvalidDowngrade::Site(site)) => assert_eq!(site, invalid, "{var:?}"),
            Err(InvalidDowngrade::Variable) => assert_eq!(invalid, "", "{var:?}"),
            other => panic!("{var:?}: {other:?}"),
        }
    }
}

#[test]
fn only_the_selected_operation_is_downgraded() {
    let mut selection = downgrade(Some("src/lib.rs:5:9:Acquire:Relaxed")).unwrap();
    let location = at("src/lib.rs", 5, 9);
    let acquire = MemoryOrder::Acquire;
    assert_eq!(apply(&mut selection, &location, acquire, Slot::Single), MemoryOrder::Relaxed);
    // Another ordering, slot or site.
    assert_eq!(
        apply(&mut selection, &location, MemoryOrder::SeqCst, Slot::Single),
        MemoryOrder::SeqCst
    );
    assert_eq!(apply(&mut selection, &location, acquire, Slot::Success), acquire);
    assert_eq!(apply(&mut selection, &location, acquire, Slot::Failure), acquire);
    assert_eq!(apply(&mut selection, &at("src/lib.rs", 6, 9), acquire, Slot::Single), acquire);
    assert_eq!(apply(&mut selection, &at("src/lib.rs", 5, 8), acquire, Slot::Single), acquire);
    assert_eq!(apply(&mut selection, &at("src/mod.rs", 5, 9), acquire, Slot::Single), acquire);
    // It is selected until the end of the run.
    assert_eq!(apply(&mut selection, &location, acquire, Slot::Single), MemoryOrder::Relaxed);
}

#[test]
fn relaxed_is_never_downgraded() {
    let mut selection = downgrade(Some("src/lib.rs:5:9:Relaxed:SeqCst")).unwrap();
    let used = apply(&mut selection, &at("src/lib.rs", 5, 9), MemoryOrder::Relaxed, Slot::Single);
    assert_eq!(used, MemoryOrder::Relaxed);
}

#[test]
fn slots_and_sites_are_parsed() {
    assert_eq!(Slot::parse("success"), Some(Slot::Success));
    assert_eq!(Slot::parse("failure"), Some(Slot::Failure));
    assert_eq!(Slot::parse("single"), None);
    assert_eq!(Slot::parse(""), None);
    assert_eq!(Slot::Single.field(), "");
    assert_eq!(Slot::Success.field(), "success:");
    assert_eq!(Slot::Failure.field(), "failure:");
    assert_eq!([Slot::Single.rank(), Slot::Success.rank(), Slot::Failure.rank()], [0, 1, 2]);
    let site = Site::parse("src/a:b.rs:12:34").unwrap();
    assert!(site.matches(&at("src/a:b.rs", 12, 34)));
    assert!(!site.matches(&at("src/a:b.rs", 12, 35)));
    assert!(Site::parse("src/lib.rs:12").is_none());
    assert!(Site::parse("src/lib.rs:12:").is_none());
}

#[test]
fn every_ordering_but_relaxed_is_downgradable() {
    assert!(!is_downgradable(MemoryOrder::Relaxed));
    assert!(is_downgradable(MemoryOrder::Acquire));
    assert!(is_downgradable(MemoryOrder::Release));
    assert!(is_downgradable(MemoryOrder::AcqRel));
    assert!(is_downgradable(MemoryOrder::SeqCst));
}
