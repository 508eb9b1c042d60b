//! A checked version of [`std::cell::Cell`].
//!
//! Every access to a cell is one that the runtime checks and traces, under the name of the
//! operation that the tested code calls. An operation records which cells it accesses, and how
//! its accesses lie to each other.

use vstd::prelude::*;
use vstd::std_specs::cmp::{OrdSpec, PartialEqSpec, PartialOrdSpec};

verus! {

/// An operation that accesses the value of a cell.
#[derive(Debug, Copy, Clone, PartialEq, Eq, Structural)]
pub enum CellOp {
    SetValue,
    SwapValues,
    ReplaceValue,
    GetValue,
    TakeValue,
}

/// The name under which an operation is traced.
pub open spec fn op_name(op: CellOp) -> Seq<char> {
    match op {
        CellOp::SetValue => "Cell::set"@,
        CellOp::SwapValues => "Cell::swap"@,
        CellOp::ReplaceValue => "Cell::replace"@,
        CellOp::GetValue => "Cell::get"@,
        CellOp::TakeValue => "Cell::take"@,
    }
}

impl CellOp {
    /// The name under which the operation is traced.
    pub fn name(self) -> (name: &'static str)
        ensures
            name@ == op_name(self),
    {
        match self {
            CellOp::SetValue => "Cell::set",
            CellOp::SwapValues => "Cell::swap",
            CellOp::ReplaceValue => "Cell::replace",
            CellOp::GetValue => "Cell::get",
            CellOp::TakeValue => "Cell::take",
        }
    }

    /// Whether the operation needs exclusive access to the value.
    pub fn is_exclusive(self) -> (exclusive: bool)
        ensures
            exclusive == !(self is GetValue),
    {
        self != CellOp::GetValue
    }
}

/// A cell of an operation.
#[derive(Debug, Copy, Clone, PartialEq, Eq, Structural)]
pub enum Which {
    /// The cell that the operation is called on.
    This,
    /// The cell that is given to it.
    Other,
}

/// What an operation does to a cell.
#[derive(Debug, Copy, Clone, PartialEq, Eq, Structural)]
pub enum CellEvent {
    /// An access to the value begins.
    Begin(Which, CellOp),
    /// The access ends.
    End(Which),
}

/// An access during which no other cell is accessed.
pub open spec fn access(which: Which, op: CellOp) -> Seq<CellEvent> {
    seq![CellEvent::Begin(which, op), CellEvent::End(which)]
}

/// The accesses of a swap: that of the other cell lies inside that of this one.
pub open spec fn swap_accesses() -> Seq<CellEvent> {
    seq![CellEvent::Begin(Which::This, CellOp::SwapValues)] + access(
        Which::Other,
        CellOp::SwapValues,
    ) + seq![CellEvent::End(Which::This)]
}

/// The accesses of a comparison: both cells are read, this one first.
pub open spec fn comparison_accesses() -> Seq<CellEvent> {
    access(Which::This, CellOp::GetValue) + access(Which::Other, CellOp::GetValue)
}

/// A checked version of [`std::cell::Cell`].
#[derive(Debug)]
pub struct Cell<T> {
    value: T,
}

impl<T> View for Cell<T> {
    type V = T;

    closed spec fn view(&self) -> T {
        self.value
    }
}

impl<T> Cell<T> {
    /// Creates a new instance of `Cell` wrapping the given value.
    pub fn new(v: T) -> (cell: Self)
        ensures
            cell@ == v,
    {
        Cell { value: v }
    }

    /// Sets the contained value.
    pub fn set(&mut self, accesses: &mut Vec<CellEvent>, val: T)
        ensures
            final(self)@ == val,
            final(accesses)@ == old(accesses)@ + access(Which::This, CellOp::SetValue),
    {
        // Traced as `Cell::set`, and not as the `Cell::replace` it is implemented with.
        let _ = self.replace_named(accesses, CellOp::SetValue, val);
    }

    /// Swaps the values of two cells, `other` being `None` if it is this very cell.
    pub fn swap(&mut self, accesses: &mut Vec<CellEvent>, other: Option<&mut Self>)
        ensures
            match other {
                Some(other) => {
                    &&& final(self)@ == other@
                    &&& final(other)@ == old(self)@
                    &&& final(accesses)@ == old(accesses)@ + swap_accesses()
                },
                None => final(self)@ == old(self)@ && final(accesses)@ == old(accesses)@,
            },
    {
        let other: &mut Self = match other {
            Some(other) => other,
            None => return,
        };
        // Both cells are accessed, so both are traced.
        accesses.push(CellEvent::Begin(Which::This, CellOp::SwapValues));
        accesses.push(CellEvent::Begin(Which::Other, CellOp::SwapValues));
        std::mem::swap(&mut self.value, &mut other.value);
        accesses.push(CellEvent::End(Which::Other));
        accesses.push(CellEvent::End(Which::This));
    }

    /// Replaces the contained value, and returns it.
    pub fn replace(&mut self, accesses: &mut Vec<CellEvent>, val: T) -> (previous: T)
        ensures
            previous == old(self)@,
            final(self)@ == val,
            final(accesses)@ == old(accesses)@ + access(Which::This, CellOp::ReplaceValue),
    {
        self.replace_named(accesses, CellOp::ReplaceValue, val)
    }

    /// Replaces the contained value, in an access traced as `op`.
    ///
    /// The previous value is returned, so the caller can drop it once the access has ended.
    pub fn replace_named(
        &mut self,
        accesses: &mut Vec<CellEvent>,
        op: CellOp,
        val: T,
    ) -> (previous: T)
        ensures
            previous == old(self)@,
            final(self)@ == val,
            final(accesses)@ == old(accesses)@ + access(Which::This, op),
    {
        accesses.push(CellEvent::Begin(Which::This, op));
        let mut previous: T = val;
        std::mem::swap(&mut self.value, &mut previous);
        accesses.push(CellEvent::End(Which::This));
        previous
    }

    /// Returns a copy of the contained value.
    pub fn get(&self, accesses: &mut Vec<CellEvent>) -> (value: T) where T: Copy
        ensures
            value == self@,
            final(accesses)@ == old(accesses)@ + access(Which::This, CellOp::GetValue),
    {
        self.get_as(accesses, Which::This)
    }

    /// Reads the value, this being that cell of the operation.
    fn get_as(&self, accesses: &mut Vec<CellEvent>, which: Which) -> (value: T) where T: Copy
        ensures
            value == self@,
            final(accesses)@ == old(accesses)@ + access(which, CellOp::GetValue),
    {
        accesses.push(CellEvent::Begin(which, CellOp::GetValue));
        let value: T = self.value;
        accesses.push(CellEvent::End(which));
        value
    }

    /// Takes the value of the cell, leaving `Default::default()` in its place.
    pub fn take(&mut self, accesses: &mut Vec<CellEvent>) -> (value: T) where T: Default
        ensures
            value == old(self)@,
            call_ensures(T::default, (), final(self)@),
            final(accesses)@ == old(accesses)@ + access(Which::This, CellOp::TakeValue),
    {
        self.replace_named(accesses, CellOp::TakeValue, T::default())
    }

    /// Creates a cell wrapping a copy of the contained value, which is read for it.
    ///
    /// Like the comparisons below, this is not the method of the standard trait, which has no
    /// record to add the access to.
    pub fn clone(&self, accesses: &mut Vec<CellEvent>) -> (cell: Cell<T>) where T: Copy
        ensures
            cell@ == self@,
            final(accesses)@ == old(accesses)@ + access(Which::This, CellOp::GetValue),
    {
        Cell::new(self.get(accesses))
    }

    /// Whether the contained values are equal, which are both read for it.
    pub fn eq(&self, accesses: &mut Vec<CellEvent>, other: &Self) -> (same: bool) where
        T: PartialEq + Copy,

        ensures
            call_ensures(T::eq, (&self@, &other@), same),
            T::obeys_eq_spec() ==> same == self@.eq_spec(&other@),
            final(accesses)@ == old(accesses)@ + comparison_accesses(),
    {
        let left: T = self.get(accesses);
        let right: T = other.get_as(accesses, Which::Other);
        left.eq(&right)
    }

    /// Compares the contained values, which are both read for it, in their partial order.
    pub fn partial_cmp(
        &self,
        accesses: &mut Vec<CellEvent>,
        other: &Self,
    ) -> (order: Option<core::cmp::Ordering>) where T: PartialOrd + Copy
        ensures
            call_ensures(T::partial_cmp, (&self@, &other@), order),
            T::obeys_partial_cmp_spec() ==> order == self@.partial_cmp_spec(&other@),
            final(accesses)@ == old(accesses)@ + comparison_accesses(),
    {
        let left: T = self.get(accesses);
        let right: T = other.get_as(accesses, Which::Other);
        left.partial_cmp(&right)
    }

    /// Compares the contained values, which are both read for it.
    pub fn cmp(&self, accesses: &mut Vec<CellEvent>, other: &Self) -> (order:
        core::cmp::Ordering) where T: Ord + Copy
        ensures
            call_ensures(T::cmp, (&self@, &other@), order),
            T::obeys_cmp_spec() ==> order == self@.cmp_spec(&other@),
            final(accesses)@ == old(accesses)@ + comparison_accesses(),
    {
        let left: T = self.get(accesses);
        let right: T = other.get_as(accesses, Which::Other);
        left.cmp(&right)
    }

    /// Unwraps the value, consuming the cell.
    pub fn into_inner(self) -> (value: T)
        ensures
            value == self@,
    {
        self.value
    }
}

impl<T: Default> Default for Cell<T> {
    fn default() -> (cell: Cell<T>)
        ensures
            call_ensures(T::default, (), cell@),
    {
        Cell::new(T::default())
    }
}

impl<T> From<T> for Cell<T> {
    fn from(src: T) -> (cell: Cell<T>)
        ensures
            cell@ == src,
    {
        Cell::new(src)
    }
}

impl<T> vstd::std_specs::convert::FromSpecImpl<T> for Cell<T> {
    open spec fn obeys_from_spec() -> bool {
        true
    }

    closed spec fn from_spec(src: T) -> Cell<T> {
        Cell { value: src }
    }
}

/// An operation is traced under the name of the method that the tested code calls, and no two
/// operations have the same.
pub proof fn law_operations_have_the_names_of_their_methods(a: CellOp, b: CellOp)
    ensures
        op_name(a) == "Cell::"@ + (match a {
            CellOp::SetValue => "set"@,
            CellOp::SwapValues => "swap"@,
            CellOp::ReplaceValue => "replace"@,
            CellOp::GetValue => "get"@,
            CellOp::TakeValue => "take"@,
        }),
        op_name(a) == op_name(b) ==> a == b,
{
    reveal_strlit("Cell::");
    reveal_strlit("set");
    reveal_strlit("swap");
    reveal_strlit("replace");
    reveal_strlit("get");
    reveal_strlit("take");
    reveal_strlit("Cell::set");
    reveal_strlit("Cell::swap");
    reveal_strlit("Cell::replace");
    reveal_strlit("Cell::get");
    reveal_strlit("Cell::take");
    assert("Cell::set"@ =~= "Cell::"@ + "set"@);
    assert("Cell::swap"@ =~= "Cell::"@ + "swap"@);
    assert("Cell::replace"@ =~= "Cell::"@ + "replace"@);
    assert("Cell::get"@ =~= "Cell::"@ + "get"@);
    assert("Cell::take"@ =~= "Cell::"@ + "take"@);
    assert(op_name(a).len() == op_name(b).len() && op_name(a)[6] == op_name(b)[6] ==> a == b);
}

/// Whether `record` holds an access to a cell from event `i` to event `j`.
pub open spec fn spans(record: Seq<CellEvent>, which: Which, op: CellOp, i: int, j: int) -> bool {
    &&& 0 <= i < j < record.len()
    &&& record[i] == CellEvent::Begin(which, op)
    &&& record[j] == CellEvent::End(which)
}

/// An access is recorded from its beginning to its end, with nothing in between. A swap accesses
/// both cells, the other one inside the access to this one; a comparison reads both, the other
/// one after the access to this one. None of them records anything else.
pub proof fn law_accesses_are_recorded_from_beginning_to_end(which: Which, op: CellOp)
    ensures
        spans(access(which, op), which, op, 0, 1),
        access(which, op).len() == 2,
        spans(swap_accesses(), Which::This, CellOp::SwapValues, 0, 3),
        spans(swap_accesses(), Which::Other, CellOp::SwapValues, 1, 2),
        swap_accesses().len() == 4,
        spans(comparison_accesses(), Which::This, CellOp::GetValue, 0, 1),
        spans(comparison_accesses(), Which::Other, CellOp::GetValue, 2, 3),
        comparison_accesses().len() == 4,
{
}

/// A read gives back what was last written, by a `set` or by a `replace`, which returns what was
/// there before.
pub proof fn law_read_gives_back_what_was_written<T: Copy>(
    setting: &mut Cell<T>,
    set_accesses: &mut Vec<CellEvent>,
    val: T,
    replacing: &mut Cell<T>,
    replace_accesses: &mut Vec<CellEvent>,
    next: T,
    previous: T,
    get_accesses: &mut Vec<CellEvent>,
    value: T,
)
    requires
        call_ensures(Cell::<T>::set, (setting, set_accesses, val), ()),
        *old(replacing) == *final(setting),
        call_ensures(Cell::<T>::replace, (replacing, replace_accesses, next), previous),
        call_ensures(Cell::<T>::get, (final(replacing), get_accesses), value),
    ensures
        previous == val,
        value == next,
{
}

/// A swap exchanges the values of two cells, so doing it twice changes nothing; a swap of a cell
/// with itself changes nothing, and accesses nothing.
pub proof fn law_swap_exchanges_the_values<T>(
    a: &mut Cell<T>,
    b: &mut Cell<T>,
    accesses: &mut Vec<CellEvent>,
    c: &mut Cell<T>,
    d: &mut Cell<T>,
    more: &mut Vec<CellEvent>,
    e: &mut Cell<T>,
    none: &mut Vec<CellEvent>,
)
    requires
        call_ensures(Cell::<T>::swap, (a, accesses, Some(b)), ()),
        *old(c) == *final(a),
        *old(d) == *final(b),
        call_ensures(Cell::<T>::swap, (c, more, Some(d)), ()),
        call_ensures(Cell::<T>::swap, (e, none, None), ()),
    ensures
        final(a)@ == old(b)@ && final(b)@ == old(a)@,
        final(c)@ == old(a)@ && final(d)@ == old(b)@,
        final(e)@ == old(e)@ && final(none)@ == old(none)@,
{
}

/// Taking the value leaves a default one, a clone holds the same value, and a cell gives its value
/// back when it is consumed.
pub proof fn law_value_is_taken_copied_and_unwrapped<T: Copy + Default>(
    taking: &mut Cell<T>,
    take_accesses: &mut Vec<CellEvent>,
    taken: T,
    cell: &Cell<T>,
    clone_accesses: &mut Vec<CellEvent>,
    copy: Cell<T>,
    unwrapped: T,
)
    requires
        call_ensures(Cell::<T>::take, (taking, take_accesses), taken),
        call_ensures(Cell::<T>::clone, (cell, clone_accesses), copy),
        call_ensures(Cell::<T>::into_inner, (copy,), unwrapped),
    ensures
        taken == old(taking)@,
        call_ensures(T::default, (), final(taking)@),
        unwrapped == cell@,
{
}

/// Every operation records its accesses after those that are recorded already: one access of this
/// cell, under the name of the operation.
pub proof fn law_operations_record_one_access<T: Copy + Default>(
    cell: &mut Cell<T>,
    accesses: &mut Vec<CellEvent>,
    op: CellOp,
    val: T,
    value: T,
    copy: Cell<T>,
    recorded: CellOp,
)
    requires
        ({
            ||| call_ensures(Cell::<T>::set, (cell, accesses, val), ()) && recorded
                == CellOp::SetValue
            ||| call_ensures(Cell::<T>::replace, (cell, accesses, val), value) && recorded
                == CellOp::ReplaceValue
            ||| call_ensures(Cell::<T>::replace_named, (cell, accesses, op, val), value)
                && recorded == op
            ||| call_ensures(Cell::<T>::take, (cell, accesses), value) && recorded
                == CellOp::TakeValue
            ||| call_ensures(Cell::<T>::get, (&*cell, accesses), value) && recorded
                == CellOp::GetValue
            ||| call_ensures(Cell::<T>::clone, (&*cell, accesses), copy) && recorded
                == CellOp::GetValue
        }),
    ensures
        final(accesses)@.len() == old(accesses)@.len() + 2,
        final(accesses)@.take(old(accesses)@.len() as int) == old(accesses)@,
        spans(
            final(accesses)@,
            Which::This,
            recorded,
            old(accesses)@.len() as int,
            old(accesses)@.len() as int + 1,
        ),
{
    assert(final(accesses)@.take(old(accesses)@.len() as int) =~= old(accesses)@);
}

/// A swap of two cells records the access to the other one inside the one to this one.
pub proof fn law_swap_records_both_cells<T>(
    a: &mut Cell<T>,
    b: &mut Cell<T>,
    accesses: &mut Vec<CellEvent>,
)
    requires
        call_ensures(Cell::<T>::swap, (a, accesses, Some(b)), ()),
    ensures
        ({
            let n = old(accesses)@.len() as int;
            let record = final(accesses)@;
            &&& record.len() == n + 4
            &&& record.take(n) == old(accesses)@
            &&& spans(record, Which::This, CellOp::SwapValues, n, n + 3)
            &&& spans(record, Which::Other, CellOp::SwapValues, n + 1, n + 2)
        }),
{
    assert(final(accesses)@.take(old(accesses)@.len() as int) =~= old(accesses)@);
}

/// A comparison of two cells is the one of their values, which are both read for it, this one
/// first.
pub proof fn law_cells_compare_as_their_values<T: Copy + Ord>(
    a: &Cell<T>,
    accesses: &mut Vec<CellEvent>,
    b: &Cell<T>,
    same: bool,
    partial: Option<core::cmp::Ordering>,
    total: core::cmp::Ordering,
)
    requires
        ({
            ||| call_ensures(Cell::<T>::eq, (a, accesses, b), same)
            ||| call_ensures(Cell::<T>::partial_cmp, (a, accesses, b), partial)
            ||| call_ensures(Cell::<T>::cmp, (a, accesses, b), total)
        }),
    ensures
        call_ensures(Cell::<T>::eq, (a, accesses, b), same) ==> call_ensures(
            T::eq,
            (&a@, &b@),
            same,
        ),
        call_ensures(Cell::<T>::partial_cmp, (a, accesses, b), partial) ==> call_ensures(
            T::partial_cmp,
            (&a@, &b@),
            partial,
        ),
        call_ensures(Cell::<T>::cmp, (a, accesses, b), total) ==> call_ensures(
            T::cmp,
            (&a@, &b@),
            total,
        ),
        final(accesses)@ == old(accesses)@ + seq![
            CellEvent::Begin(Which::This, CellOp::GetValue),
            CellEvent::End(Which::This),
            CellEvent::Begin(Which::Other, CellOp::GetValue),
            CellEvent::End(Which::Other),
        ],
{
    assert(comparison_accesses() =~= seq![
        CellEvent::Begin(Which::This, CellOp::GetValue),
        CellEvent::End(Which::This),
        CellEvent::Begin(Which::Other, CellOp::GetValue),
        CellEvent::End(Which::Other),
    ]);
}

/// A new cell holds the value that it is made of, and only a read leaves the value to other reads.
pub proof fn law_new_cell_holds_its_value<T>(v: T, cell: Cell<T>, op: CellOp, exclusive: bool)
    ensures
        call_ensures(Cell::<T>::new, (v,), cell) ==> cell@ == v,
        call_ensures(CellOp::is_exclusive, (op,), exclusive) ==> (exclusive <==> op
            != CellOp::GetValue),
{
}

} // verus!
