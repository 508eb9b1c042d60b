//! What holds of calls that select, apply and collect downgrades.

use vstd::prelude::*;

use crate::downgrade::collect::{
    entries_of, in_scope, is_in_scope, is_platform_answer, is_sorted, is_well_formed,
    law_collecting_adds_the_operation, law_collected_operation_is_its_fields,
    law_scope_is_the_source_directory, Collected, Collection, Collector, Entry,
};
use crate::downgrade::laws::{
    has_fields, has_format, is_at, law_collecting_is_asked_for_by_name,
    law_executed_operation_is_collected, law_listed_downgrade_selects_itself,
    law_listed_downgrades_are_exhaustive,
    law_selected_ordering_is_downgraded, law_selection_has_the_format,
    law_site_is_rejected_when_it_is_no_place,
};
use crate::downgrade::script::{
    all_downgrades, downgrade_text, downgrade_value, downgrade_values, has_parts,
    law_script_lists_the_downgrades_and_runs_them, script, text_of, texts_of, write_script,
    SCRIPT_BODY, SCRIPT_HEADER,
};
use crate::downgrade::site::{law_site_has_the_format, site_in, Site};
use crate::downgrade::slot::{law_slots_have_their_names, Slot};
use crate::downgrade::{
    apply, downgrade, is_downgradable, mode_of, Downgrade, InvalidDowngrade, Mode,
};
use crate::order::{downgrades_of, MemoryOrder};
use crate::rt::{Location, Place};
use crate::text::parsed_u32;

verus! {

/// A run whose variable is `<file>:<line>:<column>[:<slot>]:<from>:<to>` selects what it says, and
/// one that selects something has such a variable.
pub proof fn law_variable_selects_what_it_says(
    var: &str,
    asked: Result<Option<Downgrade>, InvalidDowngrade>,
    line: Seq<char>,
    column: Seq<char>,
    place: Place,
    slot: Slot,
    from: MemoryOrder,
    to: MemoryOrder,
)
    requires
        call_ensures(downgrade, (Some(var),), asked),
    ensures
        has_format(var@, place.file, line, column, slot, from, to) && parsed_u32(line) == Some(
            place.line,
        ) && parsed_u32(column) == Some(place.column) ==> {
            &&& asked matches Ok(Some(Downgrade::Select { site, slot: s, from: f, to: t }))
            &&& site.file@ == place.file && site.line == place.line && site.column == place.column
            &&& s == slot && f == from && t == to
        },
        asked matches Ok(Some(Downgrade::Select { site, slot: s, from: f, to: t })) ==> exists|
            line: Seq<char>,
            column: Seq<char>,
        | #[trigger]
            has_format(var@, site.file@, line, column, s, f, t) && parsed_u32(line) == Some(
                site.line,
            ) && parsed_u32(column) == Some(site.column),
{
    law_selection_has_the_format(var@, place, slot, from, to);
    if let Ok(Some(Downgrade::Select { site, slot: s, from: f, to: t })) = asked {
        law_selection_has_the_format(var@, site@, s, f, t);
    }
}

/// A run collects exactly when its variable is `collect`, and starts without operations; one
/// without a variable does nothing with its orderings.
pub proof fn law_variable_asks_to_collect(
    var: &str,
    asked: Result<Option<Downgrade>, InvalidDowngrade>,
    unset: Result<Option<Downgrade>, InvalidDowngrade>,
)
    requires
        call_ensures(downgrade, (Some(var),), asked),
        call_ensures(downgrade, (None,), unset),
    ensures
        asked matches Ok(Some(Downgrade::Collect(_))) <==> var@ == "collect"@,
        asked matches Ok(Some(Downgrade::Collect(collector))) ==> collector@.entries.len() == 0
            && !collector@.outdated && is_platform_answer(collector@.backslash_separates)
            && is_well_formed(collector@),
        asked != Ok::<Option<Downgrade>, InvalidDowngrade>(None),
        unset == Ok::<Option<Downgrade>, InvalidDowngrade>(None),
{
    law_collecting_is_asked_for_by_name(var@);
}

/// A variable is rejected for its site exactly when it has all of its fields and the site is not
/// `<file>:<line>:<column>`; the rejection tells that site.
pub proof fn law_variable_is_rejected_for_its_site(
    var: &str,
    asked: Result<Option<Downgrade>, InvalidDowngrade>,
    site: Seq<char>,
    place: Place,
    line: Seq<char>,
    column: Seq<char>,
)
    requires
        call_ensures(downgrade, (Some(var),), asked),
    ensures
        asked matches Err(InvalidDowngrade::Site(rejected)) && rejected@ == site <==> site_in(site)
            is None && exists|field: Seq<char>, from: Seq<char>, to: Seq<char>|
            has_fields(var@, site, field, from, to),
        site == place.file + seq![':'] + line + seq![':'] + column && parsed_u32(line) == Some(
            place.line,
        ) && parsed_u32(column) == Some(place.column) ==> site_in(site) == Some(place),
{
    law_site_is_rejected_when_it_is_no_place(var@, site);
    law_site_has_the_format(site, place);
}

/// An ordering can be downgraded unless it is `Relaxed`, and a site is met exactly at the location
/// with its file, its line and its column.
pub proof fn law_sites_and_orderings_are_met(
    order: MemoryOrder,
    downgradable: bool,
    site: &Site,
    location: &Location<'_>,
    same: bool,
)
    ensures
        call_ensures(is_downgradable, (order,), downgradable) ==> (downgradable <==> !(order
            is Relaxed)),
        call_ensures(Site::matches, (site, location), same) ==> (same <==> is_at(
            *site,
            *location,
        )),
{
}

/// An operation belongs to the library under test exactly when its file is below `src`.
pub proof fn law_source_files_are_in_scope(file: &str, backslash_separates: bool, belongs: bool)
    requires
        call_ensures(in_scope, (file, backslash_separates), belongs),
    ensures
        belongs <==> {
            ||| file@ == "src"@
            ||| "src/"@.is_prefix_of(file@)
            ||| backslash_separates && "src\\"@.is_prefix_of(file@)
        },
{
    law_scope_is_the_source_directory(file@, backslash_separates);
}

/// Applying a selection gives its downgrade at its site, in its slot, for the ordering that it
/// downgrades, and every other ordering as it is.
pub proof fn law_selection_is_applied(
    downgrade: &mut Option<Downgrade>,
    location: &Location<'static>,
    order: MemoryOrder,
    slot: Slot,
    used: MemoryOrder,
    site: Site,
    selected: Slot,
    from: MemoryOrder,
    to: MemoryOrder,
)
    requires
        *old(downgrade) == Some(Downgrade::Select { site, slot: selected, from, to }),
        call_ensures(apply, (downgrade, location, order, slot), used),
    ensures
        is_at(site, *location) && selected == slot && from == order && !(order is Relaxed) ==> used
            == to,
        !is_at(site, *location) || selected != slot || from != order || order is Relaxed ==> used
            == order,
        mode_of(*final(downgrade)) == mode_of(*old(downgrade)),
{
    law_selected_ordering_is_downgraded(site, selected, from, to, *location, slot, order);
}

/// Applying nothing, or collecting, gives every ordering as it is.
pub proof fn law_ordering_is_kept_without_a_selection(
    downgrade: &mut Option<Downgrade>,
    location: &Location<'static>,
    order: MemoryOrder,
    slot: Slot,
    used: MemoryOrder,
)
    requires
        !(*old(downgrade) matches Some(Downgrade::Select { .. })),
        call_ensures(apply, (downgrade, location, order, slot), used),
    ensures
        used == order,
        *old(downgrade) is None ==> mode_of(*final(downgrade)) is None,
{
}

/// A collecting run holds, once an operation was executed, what it held before and the operation,
/// if it belongs to the library under test and its ordering is not `Relaxed`.
pub proof fn law_applied_ordering_is_collected(
    downgrade: &mut Option<Downgrade>,
    location: &Location<'static>,
    order: MemoryOrder,
    slot: Slot,
    used: MemoryOrder,
    collector: Collector,
)
    requires
        *old(downgrade) == Some(Downgrade::Collect(collector)),
        is_well_formed(collector@),
        call_ensures(apply, (downgrade, location, order, slot), used),
    ensures
        ({
            let entry = Entry {
                place: Place {
                    file: location.file@,
                    line: location.line,
                    column: location.column,
                },
                slot,
                from: order,
            };
            let collects = is_in_scope(location.file@, collector@.backslash_separates) && !(order
                is Relaxed);
            &&& mode_of(*final(downgrade)) matches Some(Mode::Collect(after))
            &&& collects ==> after.entries.contains(entry)
            &&& forall|e: Entry| #[trigger]
                after.entries.contains(e) <==> collector@.entries.contains(e) || collects && e
                    == entry
            &&& is_sorted(after.entries)
            &&& after.outdated <==> collector@.outdated || collects
                && !collector@.entries.contains(entry)
        }),
{
    law_executed_operation_is_collected(collector, *location, slot, order);
}

/// A collector holds, once an operation was recorded, what it held before and the operation, if it
/// belongs to the library under test. Its script is then written exactly if something changed
/// since it was last written, and is not written twice.
pub proof fn law_script_is_written_when_it_changes(
    collecting: &mut Collector,
    location: &Location<'static>,
    slot: Slot,
    order: MemoryOrder,
    taking: &mut Collector,
    rustflags: Option<&str>,
    text: Option<String>,
    again: &mut Collector,
    more: Option<String>,
)
    requires
        is_well_formed(old(collecting)@),
        call_ensures(Collector::collect, (collecting, location, slot, order), ()),
        old(taking)@ == final(collecting)@,
        call_ensures(Collector::take_script, (taking, rustflags), text),
        old(again)@ == final(taking)@,
        call_ensures(Collector::take_script, (again, rustflags), more),
    ensures
        ({
            let before: Collection = old(collecting)@;
            let entry = Entry { place: location@, slot, from: order };
            let new = is_in_scope(location.file@, before.backslash_separates)
                && !before.entries.contains(entry);
            &&& forall|e: Entry| #[trigger]
                final(taking)@.entries.contains(e) <==> before.entries.contains(e) || new && e
                    == entry
            &&& is_well_formed(final(taking)@)
            &&& text is Some <==> before.outdated || new
            &&& text matches Some(text) ==> text@ == script(
                text_of(rustflags),
                final(taking)@.entries,
            )
            &&& more is None
            &&& final(again)@ == final(taking)@
        }),
{
    law_collecting_adds_the_operation(old(collecting)@, location@, slot, order);
}

/// A listed value reproduces the downgrade: in a run with that variable, the operation that it was
/// collected from uses the weaker ordering, and every other operation keeps its own.
pub proof fn law_listed_value_reproduces_the_downgrade(
    collected: &Collected,
    to: MemoryOrder,
    value: String,
    var: &str,
    running: &mut Option<Downgrade>,
    location: &Location<'static>,
    order: MemoryOrder,
    slot: Slot,
    used: MemoryOrder,
)
    requires
        !(collected.from is Relaxed),
        call_ensures(downgrade_value, (collected, to), value),
        var@ == value@,
        call_ensures(downgrade, (Some(var),), Ok::<_, InvalidDowngrade>(*old(running))),
        call_ensures(apply, (running, location, order, slot), used),
    ensures
        used == if location.file@ == collected.file@ && location.line == collected.line
            && location.column == collected.column && slot == collected.slot && order
            == collected.from {
            to
        } else {
            order
        },
{
    law_listed_downgrade_selects_itself(collected@, to);
    if let Some(Downgrade::Select { site, slot: s, from: f, to: t }) = *old(running) {
        law_selected_ordering_is_downgraded(site, s, f, t, *location, slot, order);
        assert(site@ == collected@.place);
    }
}

/// Whatever is collected, and whatever the flags are, the written script starts with its header
/// and ends with the loop that runs the command, after the line that closes the array.
pub proof fn law_written_script_runs_the_downgrades(
    rustflags: Option<&str>,
    collected: &Vec<Collected>,
    text: String,
)
    requires
        call_ensures(write_script, (rustflags, collected), text),
    ensures
        SCRIPT_HEADER@.is_prefix_of(text@),
        (")\n"@ + SCRIPT_BODY@).is_suffix_of(text@),
        exists|flags: Seq<char>, digits: Seq<char>, array: Seq<char>|
            has_parts(text@, flags, digits, array),
{
    law_script_lists_the_downgrades_and_runs_them(rustflags, collected@);
    let (flags, digits, array) = choose|flags: Seq<char>, digits: Seq<char>, array: Seq<char>|
        has_parts(text@, flags, digits, array);
    let end = ")\n"@ + SCRIPT_BODY@;
    assert(text@.subrange(text@.len() - end.len(), text@.len() as int) =~= end);
}

/// The values of the collected operations are those of their downgrades, each of them made of the
/// operation and an ordering that it can be downgraded to, and no others.
pub proof fn law_values_are_those_of_the_downgrades(
    collected: &Vec<Collected>,
    values: Vec<String>,
    i: int,
    to: MemoryOrder,
    value: String,
    j: int,
)
    requires
        call_ensures(downgrade_values, (collected,), values),
        0 <= i < collected@.len(),
        call_ensures(downgrade_value, (&collected@[i], to), value),
        0 <= j < values@.len(),
    ensures
        downgrades_of(collected@[i].from).contains(to) ==> exists|k: int|
            0 <= k < values@.len() && (#[trigger] values@[k])@ == value@,
        exists|k: int, weaker: MemoryOrder|
            0 <= k < collected@.len() && #[trigger] downgrades_of(collected@[k].from).contains(
                weaker,
            ) && values@[j]@ == downgrade_text(collected@[k]@, weaker),
{
    let entries = entries_of(collected@);
    let texts = texts_of(values@);
    law_collected_operation_is_its_fields(collected@, i);
    law_listed_downgrades_are_exhaustive(entries, value@);
    law_listed_downgrades_are_exhaustive(entries, values@[j]@);
    assert(entries[i] == collected@[i]@);
    assert(entries.contains(collected@[i]@));
    if downgrades_of(collected@[i].from).contains(to) {
        assert(all_downgrades(entries).contains(downgrade_text(collected@[i]@, to)));
        let k = choose|k: int| 0 <= k < texts.len() && texts[k] == value@;
        assert(values@[k]@ == value@);
    }
    assert(texts[j] == values@[j]@);
    assert(texts.contains(values@[j]@));
    let (entry, weaker) = choose|entry: Entry, weaker: MemoryOrder|
        #![trigger downgrade_text(entry, weaker)]
        entries.contains(entry) && downgrades_of(entry.from).contains(weaker) && values@[j]@
            == downgrade_text(entry, weaker);
    let k = choose|k: int| 0 <= k < entries.len() && entries[k] == entry;
    assert(collected@[k]@ == entry);
    assert(downgrades_of(collected@[k].from).contains(weaker));
}

/// A text is read as a site exactly when it is a file, a line and a column with a `:` between two
/// of them.
pub proof fn law_site_is_read_from_its_format(
    s: &str,
    read: Option<Site>,
    place: Place,
    line: Seq<char>,
    column: Seq<char>,
)
    requires
        call_ensures(Site::parse, (s,), read),
    ensures
        s@ == place.file + seq![':'] + line + seq![':'] + column && parsed_u32(line) == Some(
            place.line,
        ) && parsed_u32(column) == Some(place.column) ==> {
            &&& read matches Some(site)
            &&& site.file@ == place.file && site.line == place.line && site.column == place.column
        },
        read matches Some(site) ==> exists|line: Seq<char>, column: Seq<char>|
            s@ == site.file@ + seq![':'] + line + seq![':'] + column && #[trigger] parsed_u32(line)
                == Some(site.line) && #[trigger] parsed_u32(column) == Some(site.column),
{
    law_site_has_the_format(s@, place);
    if let Some(site) = read {
        law_site_has_the_format(s@, site@);
    }
}

/// A slot is read from its name, which is its field but for the `:` at its end.
pub proof fn law_slot_is_read_from_its_field(
    s: &str,
    slot: Slot,
    read: Option<Slot>,
    field: &'static str,
)
    requires
        call_ensures(Slot::parse, (s,), read),
        call_ensures(Slot::field, (slot,), field),
    ensures
        read == Some(slot) <==> !(slot is Single) && s@ + seq![':'] == field@,
        slot is Single <==> field@.len() == 0,
{
    law_slots_have_their_names(s@, slot);
    reveal_strlit("success:");
    reveal_strlit("failure:");
}

} // verus!
