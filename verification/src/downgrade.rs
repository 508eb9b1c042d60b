//! Runtime downgrading of the memory orderings of the tested code.
//!
//! It makes it possible to check that the orderings used by the tested code are *minimal*:
//! weaken one of them, and if no test fails, that ordering may be unnecessary — or the test
//! suite is missing a case.
//!
//! Nothing is weakened by editing the tested code, it is done at runtime, by selecting a
//! single operation with the `LOOM_DOWNGRADE` environment variable:
//!
//! ```text
//! LOOM_DOWNGRADE=<file>:<line>:<column>[:<slot>]:<from>:<to>
//! ```
//!
//! An operation is selected by its *call site*, which is the location `#[track_caller]`
//! reports for it, plus its current ordering `from` — the same site can be executed with
//! several orderings, e.g. `atomic.load(if cached { Acquire } else { Relaxed })`. `slot`
//! disambiguates the two orderings of a compare-exchange: `success` or `failure`, absent for
//! every other operation.
//!
//! A fence is an operation like any other, downgrading it to a weaker ordering; as there is
//! no such thing as a relaxed fence, downgrading a fence to `Relaxed` *removes* it.
//!
//! Only the operations of the library under test are collected, i.e. those whose call site is
//! relative to its `src` directory: the orderings of its tests are not the subject of the
//! check, and a dependency is reported with an absolute path anyway.
//!
//! `Relaxed` operations are neither downgradable nor collected, as they cannot be weakened.
//!
//! # Collecting the downgrades to check
//!
//! Setting `LOOM_DOWNGRADE=collect` downgrades nothing; it makes instead every executed
//! downgradable operation record itself into a `loom_downgrade.sh` file, which is a script
//! running the command given as arguments once per possible downgrade, e.g.
//!
//! ```text
//! ./loom_downgrade.sh cargo test --release
//! ```
//!
//! Each downgrade is printed as the `LOOM_DOWNGRADE` value selecting it, so a single run
//! reproduces it, and marked on the same line once the command is done: ✓ when the downgrade
//! was caught, ✗ when it was not, i.e. when the ordering may be unnecessary. Note that only the
//! operations *executed* are collected, so the script is only as exhaustive as the test suite it
//! is collected from.

use vstd::prelude::*;

use crate::downgrade::collect::{
    collected_into, is_platform_answer, is_well_formed, Collection, Collector,
};
use crate::downgrade::site::{site_in, Site};
use crate::downgrade::slot::{slot_named, Slot};
use crate::order::{downgrades_of, named, parse_ordering, MemoryOrder};
use crate::rt::{Location, Place};
use crate::text::{parse_u32, parsed_u32, rsplit_colon, same_text, split_at_last_colon};

pub mod calls;
pub mod collect;
pub mod laws;
pub mod script;
pub mod site;
pub mod slot;

verus! {

/// The environment variable that selects what is downgraded.
pub const VAR: &'static str = "LOOM_DOWNGRADE";

/// The value of [`VAR`] that collects instead of downgrading.
pub const COLLECT_MODE: &'static str = "collect";

/// The file that a collecting run writes its script to.
pub const COLLECT_PATH: &'static str = "loom_downgrade.sh";

/// What a value of [`VAR`] asks for.
#[verifier::ext_equal]
pub enum Setting {
    Collect,
    Select { site: Place, slot: Slot, from: MemoryOrder, to: MemoryOrder },
}

/// What is wrong with a value of [`VAR`].
#[verifier::ext_equal]
pub enum Mistake {
    /// The value does not have the format, or names an unknown slot or ordering.
    Variable,
    /// What should be its site is not one.
    Site(Seq<char>),
}

/// What a value asks for, once it is split into its fields.
pub open spec fn selection(
    site: Seq<char>,
    slot: Slot,
    from: Seq<char>,
    to: Seq<char>,
) -> Result<Setting, Mistake> {
    match site_in(site) {
        None => Err(Mistake::Site(site)),
        Some(place) => match (named(from), named(to)) {
            (Some(from), Some(to)) => Ok(Setting::Select { site: place, slot, from, to }),
            _ => Err(Mistake::Variable),
        },
    }
}

/// What a value of [`VAR`] asks for. The slot is optional, and a site always ends with
/// `:<column>`, so what precedes `from` is a slot if and only if it is not a number.
pub open spec fn setting(var: Seq<char>) -> Result<Setting, Mistake> {
    if var == COLLECT_MODE@ {
        Ok(Setting::Collect)
    } else {
        match split_at_last_colon(var) {
            None => Err(Mistake::Variable),
            Some((rest, to)) => match split_at_last_colon(rest) {
                None => Err(Mistake::Variable),
                Some((rest, from)) => match split_at_last_colon(rest) {
                    None => Err(Mistake::Variable),
                    Some((site, field)) => match slot_named(field) {
                        Some(slot) => selection(site, slot, from, to),
                        None => if parsed_u32(field) is Some {
                            selection(rest, Slot::Single, from, to)
                        } else {
                            Err(Mistake::Variable)
                        },
                    },
                },
            },
        }
    }
}

/// What is done with the orderings of a run.
#[verifier::ext_equal]
pub enum Mode {
    /// The executed operations are collected.
    Collect(Collection),
    /// The ordering of one operation is downgraded.
    Select { site: Place, slot: Slot, from: MemoryOrder, to: MemoryOrder },
}

/// The ordering that an operation actually uses.
pub open spec fn applied(
    mode: Option<Mode>,
    place: Place,
    slot: Slot,
    order: MemoryOrder,
) -> MemoryOrder {
    if order is Relaxed {
        order
    } else {
        match mode {
            Some(Mode::Select { site, slot: selected, from, to }) => if from == order && selected
                == slot && site == place {
                to
            } else {
                order
            },
            _ => order,
        }
    }
}

/// What is done with the orderings of a run, once an operation was executed.
pub open spec fn mode_after(
    mode: Option<Mode>,
    place: Place,
    slot: Slot,
    order: MemoryOrder,
) -> Option<Mode> {
    match mode {
        Some(Mode::Collect(collection)) => if order is Relaxed {
            mode
        } else {
            Some(Mode::Collect(collected_into(collection, place, slot, order)))
        },
        _ => mode,
    }
}

/// What is done with the orderings of a run.
#[derive(Debug)]
pub enum Downgrade {
    /// The executed operations are collected.
    Collect(Collector),
    /// The ordering `from` of the operation at `site` is downgraded to `to`.
    Select { site: Site, slot: Slot, from: MemoryOrder, to: MemoryOrder },
}

impl View for Downgrade {
    type V = Mode;

    open spec fn view(&self) -> Mode {
        match self {
            Downgrade::Collect(collector) => Mode::Collect(collector@),
            Downgrade::Select { site, slot, from, to } => Mode::Select {
                site: site@,
                slot: *slot,
                from: *from,
                to: *to,
            },
        }
    }
}

/// The mode of a run, which does nothing with its orderings unless [`VAR`] is set.
pub open spec fn mode_of(downgrade: Option<Downgrade>) -> Option<Mode> {
    match downgrade {
        Some(downgrade) => Some(downgrade@),
        None => None,
    }
}

/// Why a value of [`VAR`] is rejected.
#[derive(Debug)]
pub enum InvalidDowngrade {
    /// The value does not have the format, or names an unknown slot or ordering.
    Variable,
    /// What should be its site is not one.
    Site(String),
}

impl View for InvalidDowngrade {
    type V = Mistake;

    open spec fn view(&self) -> Mistake {
        match self {
            InvalidDowngrade::Variable => Mistake::Variable,
            InvalidDowngrade::Site(site) => Mistake::Site(site@),
        }
    }
}

/// The downgrade that [`VAR`] asks for, `var` being its value if it is set.
pub fn downgrade(var: Option<&str>) -> (downgrade: Result<Option<Downgrade>, InvalidDowngrade>)
    ensures
        match var {
            None => downgrade matches Ok(None),
            Some(var) => match setting(var@) {
                Ok(Setting::Collect) => downgrade matches Ok(Some(Downgrade::Collect(collector)))
                    && collector@.entries.len() == 0 && !collector@.outdated && is_platform_answer(
                    collector@.backslash_separates,
                ) && is_well_formed(collector@),
                Ok(Setting::Select { site, slot, from, to }) => downgrade matches Ok(
                    Some(selected),
                ) && selected@ == (Mode::Select { site, slot, from, to }),
                Err(mistake) => downgrade matches Err(invalid) && invalid@ == mistake,
            },
        },
{
    let var: &str = match var {
        Some(var) => var,
        None => return Ok(None),
    };
    if same_text(var, COLLECT_MODE) {
        return Ok(Some(Downgrade::Collect(Collector::new())));
    }
    let (rest, to) = match rsplit_colon(var) {
        Some(parts) => parts,
        None => return Err(InvalidDowngrade::Variable),
    };
    let (rest, from) = match rsplit_colon(rest) {
        Some(parts) => parts,
        None => return Err(InvalidDowngrade::Variable),
    };
    let (site, slot) = match rsplit_colon(rest) {
        Some((site, field)) => match Slot::parse(field) {
            Some(slot) => (site, slot),
            None => if parse_u32(field).is_some() {
                (rest, Slot::Single)
            } else {
                return Err(InvalidDowngrade::Variable);
            },
        },
        None => return Err(InvalidDowngrade::Variable),
    };
    let site: Site = match Site::parse(site) {
        Some(site) => site,
        None => return Err(InvalidDowngrade::Site(site.to_owned())),
    };
    match (parse_ordering(from), parse_ordering(to)) {
        (Some(from), Some(to)) => Ok(Some(Downgrade::Select { site, slot, from, to })),
        _ => Err(InvalidDowngrade::Variable),
    }
}

/// Whether an ordering can be downgraded at all, so that [`VAR`] has a say in it.
pub fn is_downgradable(order: MemoryOrder) -> (downgradable: bool)
    ensures
        downgradable == (downgrades_of(order).len() > 0),
{
    order != MemoryOrder::Relaxed
}

/// Returns the ordering to actually use for the operation at `location`, which is the given
/// one unless it is selected by [`VAR`].
///
/// A fence downgraded to `Relaxed` must be removed by its caller.
pub fn apply(
    downgrade: &mut Option<Downgrade>,
    location: &Location<'static>,
    order: MemoryOrder,
    slot: Slot,
) -> (used: MemoryOrder)
    ensures
        used == applied(mode_of(*old(downgrade)), location@, slot, order),
        mode_of(*final(downgrade)) == mode_after(
            mode_of(*old(downgrade)),
            location@,
            slot,
            order,
        ),
{
    // Relaxed cannot be downgraded, so it is neither collected nor matched.
    if !is_downgradable(order) {
        return order;
    }
    match downgrade {
        Some(Downgrade::Collect(collector)) => {
            collector.collect(location, slot, order);
            order
        },
        Some(Downgrade::Select { site, slot: selected, from, to }) => {
            if *from == order && *selected == slot && site.matches(location) {
                *to
            } else {
                order
            }
        },
        None => order,
    }
}

} // verus!
