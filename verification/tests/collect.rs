use loom::downgrade::collect::{in_scope, Collected, Collector};
use loom::downgrade::script::{downgrade_value, downgrade_values, write_script};
use loom::downgrade::slot::Slot;
use loom::downgrade::{apply, downgrade, Downgrade};
use loom::order::MemoryOrder;
use loom::rt::Location;

fn at(file: &'static str, line: u32, column: u32) -> Location<'static> {
    Location { file, line, column }
}

/// The downgrades listed by a script.
fn listed(script: &str) -> Vec<String> {
    script
        .lines()
        .skip_while(|line| *line != "downgrades=(")
        .skip(1)
        .take_while(|line| *line != ")")
        .map(|line| line.trim().trim_matches('\'').to_string())
        .collect()
}

#[test]
fn scope_is_the_source_directory() {
    assert!(in_scope("src", false));
    assert!(in_scope("src/", false));
    assert!(in_scope("src/lib.rs", false));
    assert!(in_scope("src/../tests/a.rs", false));
    for file in [
        "", "s", "srcs/lib.rs", "src.rs", "/src/lib.rs", "./src/lib.rs", "tests/src/a.rs",
        "Src/lib.rs",
    ] {
        assert!(!in_scope(file, false), "{file:?}");
        assert!(!in_scope(file, true), "{file:?}");
    }
    assert!(!in_scope("src\\lib.rs", false));
    assert!(in_scope("src\\lib.rs", true));
    assert!(in_scope("src/lib.rs", true));
}

#[test]
fn scope_is_that_of_the_platform() {
    for file in ["src", "src/lib.rs", "src\\lib.rs", "srcs/lib.rs", "/src/lib.rs"] {
        let mut collector = Collector::new();
        collector.collect(&at(file, 1, 1), Slot::Single, MemoryOrder::Acquire);
        assert_eq!(
            collector.take_script(None).is_some(),
            std::path::Path::new(file).starts_with("src"),
            "{file:?}"
        );
    }
}

#[test]
fn operations_are_collected_once_and_sorted() {
    let operations = [
        (at("src/lib.rs", 10, 3), Slot::Single, MemoryOrder::AcqRel),
        (at("src/a.rs", 100, 1), Slot::Single, MemoryOrder::Release),
        (at("src/lib.rs", 9, 3), Slot::Failure, MemoryOrder::Acquire),
        (at("src/lib.rs", 9, 3), Slot::Success, MemoryOrder::SeqCst),
        (at("src/lib.rs", 9, 3), Slot::Success, MemoryOrder::AcqRel),
        (at("src/lib.rs", 9, 3), Slot::Success, MemoryOrder::Acquire),
        (at("tests/lib.rs", 1, 1), Slot::Single, MemoryOrder::SeqCst),
        (at("src/lib.rs", 10, 3), Slot::Single, MemoryOrder::AcqRel),
    ];
    let expected = vec![
        "src/a.rs:100:1:Release:Relaxed",
        "src/lib.rs:9:3:success:AcqRel:Acquire",
        "src/lib.rs:9:3:success:AcqRel:Release",
        "src/lib.rs:9:3:success:Acquire:Relaxed",
        "src/lib.rs:9:3:success:SeqCst:AcqRel",
        "src/lib.rs:9:3:success:SeqCst:Acquire",
        "src/lib.rs:9:3:success:SeqCst:Release",
        "src/lib.rs:9:3:failure:Acquire:Relaxed",
        "src/lib.rs:10:3:AcqRel:Acquire",
        "src/lib.rs:10:3:AcqRel:Release",
    ];
    let mut forwards = Collector::with_separator(false);
    for (location, slot, order) in operations.iter() {
        forwards.collect(location, *slot, *order);
    }
    let forwards = forwards.take_script(None).unwrap();
    let mut backwards = Collector::with_separator(false);
    for (location, slot, order) in operations.iter().rev() {
        backwards.collect(location, *slot, *order);
    }
    let backwards = backwards.take_script(None).unwrap();
    assert_eq!(listed(&forwards), expected);
    assert_eq!(forwards, backwards);
}

#[test]
fn the_script_is_written_again_when_it_changes() {
    let mut collecting = downgrade(Some("collect")).unwrap();
    let first = at("src/lib.rs", 1, 1);
    let second = at("src/lib.rs", 2, 1);
    let script = |collecting: &mut Option<Downgrade>| match collecting {
        Some(Downgrade::Collect(collector)) => collector.take_script(None),
        _ => None,
    };
    assert!(script(&mut collecting).is_none());
    // Collecting downgrades nothing.
    assert_eq!(
        apply(&mut collecting, &first, MemoryOrder::Acquire, Slot::Single),
        MemoryOrder::Acquire
    );
    assert_eq!(listed(&script(&mut collecting).unwrap()), ["src/lib.rs:1:1:Acquire:Relaxed"]);
    // The same operation again, a relaxed one, and one of the tests.
    apply(&mut collecting, &first, MemoryOrder::Acquire, Slot::Single);
    apply(&mut collecting, &second, MemoryOrder::Relaxed, Slot::Single);
    apply(&mut collecting, &at("tests/a.rs", 1, 1), MemoryOrder::SeqCst, Slot::Single);
    assert!(script(&mut collecting).is_none());
    apply(&mut collecting, &second, MemoryOrder::Release, Slot::Single);
    assert_eq!(
        listed(&script(&mut collecting).unwrap()),
        ["src/lib.rs:1:1:Acquire:Relaxed", "src/lib.rs:2:1:Release:Relaxed"]
    );
}

#[test]
fn a_listed_downgrade_reproduces_itself() {
    let entry = Collected {
        file: "src/a:7:b.rs",
        line: 42,
        column: 7,
        slot: Slot::Failure,
        from: MemoryOrder::SeqCst,
    };
    let value = downgrade_value(&entry, MemoryOrder::Acquire);
    assert_eq!(value, "src/a:7:b.rs:42:7:failure:SeqCst:Acquire");
    let mut selection = downgrade(Some(&value)).unwrap();
    let location = at("src/a:7:b.rs", 42, 7);
    assert_eq!(
        apply(&mut selection, &location, MemoryOrder::SeqCst, Slot::Failure),
        MemoryOrder::Acquire
    );
    assert_eq!(
        apply(&mut selection, &location, MemoryOrder::SeqCst, Slot::Success),
        MemoryOrder::SeqCst
    );
    assert_eq!(downgrade_values(&vec![entry]).len(), 3);
}

const HEADER: &str = r#"#!/usr/bin/env bash
# Generated by loom during a `LOOM_DOWNGRADE=collect` run, see `loom::downgrade`.
#
# Runs the command given as arguments once per downgrade of the memory orderings executed by
# the collecting run, e.g.
#
#     ./loom_downgrade.sh cargo test --release
#
# Each downgrade is printed as the `LOOM_DOWNGRADE` value selecting it, so a single run
# reproduces it, then marked once the command is done: ✓ if it failed, meaning the downgrade
# was caught, ✗ if it passed, meaning the ordering may be unnecessary. The exit status is
# non-zero if any downgrade was not caught.
set -uo pipefail

"#;

const BODY: &str = r#"

if (($# == 0)); then
    echo "usage: $0 <command> [<args>...]" >&2
    exit 2
fi

uncaught=0
for downgrade in "${downgrades[@]}"; do
    # Printed before the command runs, which takes a while, so the downgrade being checked is
    # visible while it is checked, and marked once it is done.
    printf '%-*s ' "$width" "$downgrade"
    LOOM_DOWNGRADE="$downgrade" "$@" > /dev/null 2>&1
    status=$?
    # A panic from a downgraded ordering is caught and reported as a test failure, so the only
    # expected outcomes are libtest's 101 and a clean pass. Anything else (e.g. a stack
    # overflow from a divergent loom execution) is a real problem, not a "catch": abort rather
    # than silently reading it as coverage.
    case $status in
    0) echo '✗' && uncaught=1 ;;
    101) echo '✓' ;;
    *) echo "the command crashed (exit $status)" && exit 1 ;;
    esac
done

exit $uncaught
"#;

#[test]
fn script_without_operations() {
    let expected = format!(
        "{HEADER}# RUSTFLAGS was not set in the collecting run.\n\n\
         width=0\n\ndowngrades=(\n)\n{BODY}"
    );
    assert_eq!(write_script(None, &vec![]), expected);
}

#[test]
fn script_with_flags_and_operations() {
    let collected = vec![
        Collected {
            file: "src/é.rs",
            line: 3,
            column: 5,
            slot: Slot::Single,
            from: MemoryOrder::Acquire,
        },
        Collected {
            file: "src/lib.rs",
            line: 506,
            column: 36,
            slot: Slot::Success,
            from: MemoryOrder::AcqRel,
        },
    ];
    let expected = format!(
        "{HEADER}export RUSTFLAGS=\"${{RUSTFLAGS:---cfg loom -C \\\"a\\\\b\\$c\\`d}}\"\n\n\
         width=40\n\n\
         downgrades=(\n    'src/é.rs:3:5:Acquire:Relaxed'\n    \
         'src/lib.rs:506:36:success:AcqRel:Acquire'\n    \
         'src/lib.rs:506:36:success:AcqRel:Release'\n)\n{BODY}"
    );
    assert_eq!(write_script(Some("--cfg loom -C \"a\\b$c`d"), &collected), expected);
}

#[test]
fn script_width_is_in_bytes() {
    let collected = vec![Collected {
        file: "src/✓✓✓.rs",
        line: 1,
        column: 1,
        slot: Slot::Single,
        from: MemoryOrder::Release,
    }];
    let script = write_script(Some(""), &collected);
    assert!(script.contains("\nexport RUSTFLAGS=\"${RUSTFLAGS:-}\"\n\nwidth=36\n"), "{script}");
}

#[test]
fn braces_of_the_flags_are_kept() {
    let script = write_script(Some("a}b{"), &vec![]);
    assert!(script.contains("\nexport RUSTFLAGS=\"${RUSTFLAGS:-a}b{}\"\n"), "{script}");
}

#[test]
fn quotes_of_a_file_are_kept() {
    let collected = vec![Collected {
        file: "src/it's.rs",
        line: 1,
        column: 2,
        slot: Slot::Failure,
        from: MemoryOrder::Acquire,
    }];
    let script = write_script(None, &collected);
    assert!(script.contains("    'src/it's.rs:1:2:failure:Acquire:Relaxed'\n"), "{script}");
}
