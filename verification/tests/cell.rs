use loom::cell::{Cell, CellEvent, CellOp, Which};
use std::cmp::Ordering;

fn access(which: Which, op: CellOp) -> [CellEvent; 2] {
    [CellEvent::Begin(which, op), CellEvent::End(which)]
}

#[test]
fn a_read_gives_back_what_was_written() {
    let mut accesses = Vec::new();
    let mut cell = Cell::new(1);
    assert_eq!(cell.get(&mut accesses), 1);
    cell.set(&mut accesses, 2);
    assert_eq!(cell.get(&mut accesses), 2);
    assert_eq!(cell.replace(&mut accesses, 3), 2);
    assert_eq!(cell.take(&mut accesses), 3);
    assert_eq!(cell.get(&mut accesses), 0);
    assert_eq!(cell.into_inner(), 0);
    let names: Vec<&str> = accesses
        .chunks(2)
        .map(|events| match events {
            [CellEvent::Begin(Which::This, op), CellEvent::End(Which::This)] => op.name(),
            _ => panic!("{events:?}"),
        })
        .collect();
    assert_eq!(
        names,
        ["Cell::get", "Cell::set", "Cell::get", "Cell::replace", "Cell::take", "Cell::get"]
    );
}

#[test]
fn swap_accesses_both_cells() {
    let mut accesses = Vec::new();
    let mut a = Cell::new(String::from("a"));
    let mut b = Cell::new(String::from("b"));
    a.swap(&mut accesses, Some(&mut b));
    assert_eq!(
        accesses,
        [
            CellEvent::Begin(Which::This, CellOp::SwapValues),
            CellEvent::Begin(Which::Other, CellOp::SwapValues),
            CellEvent::End(Which::Other),
            CellEvent::End(Which::This),
        ]
    );
    a.swap(&mut accesses, None);
    assert_eq!(accesses.len(), 4);
    assert_eq!(a.into_inner(), "b");
    assert_eq!(b.into_inner(), "a");
}

#[test]
fn only_a_read_is_shared() {
    assert!(!CellOp::GetValue.is_exclusive());
    for op in [CellOp::SetValue, CellOp::SwapValues, CellOp::ReplaceValue, CellOp::TakeValue] {
        assert!(op.is_exclusive());
    }
    assert_eq!(CellOp::SwapValues.name(), "Cell::swap");
}

#[test]
fn a_named_replacement_hands_the_old_value_back() {
    let mut accesses = Vec::new();
    let mut cell = Cell::new(String::from("old"));
    let old = cell.replace_named(&mut accesses, CellOp::SetValue, String::from("new"));
    assert_eq!(old, "old");
    assert_eq!(accesses, access(Which::This, CellOp::SetValue));
    assert_eq!(cell.into_inner(), "new");
}

#[test]
fn cells_compare_by_value() {
    let mut accesses = Vec::new();
    let one = Cell::new(1);
    let two = Cell::from(2);
    assert!(one.eq(&mut accesses, &one.clone(&mut Vec::new())));
    assert!(!one.eq(&mut accesses, &two));
    assert_eq!(one.partial_cmp(&mut accesses, &two), Some(Ordering::Less));
    assert_eq!(two.cmp(&mut accesses, &one), Ordering::Greater);
    assert_eq!(Cell::<u8>::default().into_inner(), 0);
    let nan = Cell::new(f64::NAN);
    assert!(!nan.eq(&mut accesses, &nan));
    assert_eq!(nan.partial_cmp(&mut accesses, &nan), None);
}

#[test]
fn comparisons_read_both_cells() {
    let mut accesses = Vec::new();
    let one = Cell::new(1);
    let two = one.clone(&mut accesses);
    let this = access(Which::This, CellOp::GetValue);
    let other = access(Which::Other, CellOp::GetValue);
    assert_eq!(accesses, this);
    assert!(one.eq(&mut accesses, &two));
    assert_eq!(one.partial_cmp(&mut accesses, &two), Some(Ordering::Equal));
    assert_eq!(one.cmp(&mut accesses, &Cell::new(0)), Ordering::Greater);
    assert_eq!(accesses, [this, this, other, this, other, this, other].concat());
}
