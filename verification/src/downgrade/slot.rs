//! Which ordering of an operation is downgraded.

use vstd::prelude::*;

use crate::text::same_text;

verus! {

/// Which ordering of an operation is downgraded.
///
/// A compare-exchange has two orderings at a single call site, so its site is not enough to
/// select one of them; every other operation has only one, and uses [`Slot::Single`].
#[derive(Debug, Copy, Clone, PartialEq, Eq, PartialOrd, Ord, Structural)]
pub enum Slot {
    /// The only ordering of the operation, not written in the `LOOM_DOWNGRADE` format.
    Single,
    /// The success ordering of a compare-exchange, written `success`.
    Success,
    /// The failure ordering of a compare-exchange, written `failure`.
    Failure,
}

/// The slot that a name stands for; [`Slot::Single`] has no name.
pub open spec fn slot_named(s: Seq<char>) -> Option<Slot> {
    if s == "success"@ {
        Some(Slot::Success)
    } else if s == "failure"@ {
        Some(Slot::Failure)
    } else {
        None
    }
}

/// A slot as a field of the `LOOM_DOWNGRADE` format.
pub open spec fn slot_field(slot: Slot) -> Seq<char> {
    match slot {
        Slot::Single => ""@,
        Slot::Success => "success:"@,
        Slot::Failure => "failure:"@,
    }
}

/// The position of a slot among the slots of one site.
pub open spec fn slot_rank(slot: Slot) -> int {
    match slot {
        Slot::Single => 0,
        Slot::Success => 1,
        Slot::Failure => 2,
    }
}

impl Slot {
    /// The slot called `s`.
    pub fn parse(s: &str) -> (slot: Option<Slot>)
        ensures
            slot == slot_named(s@),
    {
        if same_text(s, "success") {
            Some(Slot::Success)
        } else if same_text(s, "failure") {
            Some(Slot::Failure)
        } else {
            None
        }
    }

    /// The slot as a `LOOM_DOWNGRADE` field, *including* its trailing `:`, so
    /// [`Slot::Single`] can be written as nothing at all.
    pub fn field(self) -> (s: &'static str)
        ensures
            s@ == slot_field(self),
    {
        match self {
            Slot::Single => "",
            Slot::Success => "success:",
            Slot::Failure => "failure:",
        }
    }

    /// The position of the slot among the slots of one site.
    pub fn rank(self) -> (rank: u8)
        ensures
            rank == slot_rank(self),
    {
        match self {
            Slot::Single => 0,
            Slot::Success => 1,
            Slot::Failure => 2,
        }
    }
}

/// A text stands for a slot exactly when it is its name, which is what its field consists of but
/// for the `:` at its end; the slot without a name has an empty field.
pub proof fn law_slots_have_their_names(s: Seq<char>, slot: Slot)
    ensures
        slot_named(s) == Some(Slot::Success) <==> s == "success"@,
        slot_named(s) == Some(Slot::Failure) <==> s == "failure"@,
        slot_named(s) != Some(Slot::Single),
        slot_named(s) == Some(slot) <==> !(slot is Single) && s + seq![':'] == slot_field(slot),
        slot_field(Slot::Single).len() == 0,
{
    reveal_strlit("");
    reveal_strlit("success");
    reveal_strlit("failure");
    reveal_strlit("success:");
    reveal_strlit("failure:");
    assert("success"@[0] != "failure"@[0]);
    assert("success:"@ =~= "success"@ + seq![':']);
    assert("failure:"@ =~= "failure"@ + seq![':']);
    if s + seq![':'] == "success:"@ {
        assert(s =~= (s + seq![':']).drop_last());
        assert("success:"@.drop_last() =~= "success"@);
    }
    if s + seq![':'] == "failure:"@ {
        assert(s =~= (s + seq![':']).drop_last());
        assert("failure:"@.drop_last() =~= "failure"@);
    }
}

/// The slots of one site come in the order in which their orderings are given: the only one
/// first, then that of the success, then that of the failure.
pub proof fn law_slots_are_ordered(a: Slot, b: Slot)
    ensures
        slot_rank(a) < slot_rank(b) <==> {
            ||| a is Single && !(b is Single)
            ||| a is Success && b is Failure
        },
{
}

} // verus!
