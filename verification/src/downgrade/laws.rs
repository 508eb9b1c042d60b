//! What holds of the downgrades as a whole.

use vstd::prelude::*;

use crate::downgrade::collect::{
    all_collected_into, collected_into, entry_before, is_in_scope, is_sorted, is_well_formed,
    law_collecting_adds_the_operation, law_collection_ignores_execution_order,
    lemma_entry_irreflexive, Collection, Collector, Entry,
};
use crate::downgrade::script::{
    all_downgrades, array_items, array_lines, downgrade_text, entry_downgrades,
    law_array_reads_back, script,
};
use crate::downgrade::site::{site_in, Site};
use crate::downgrade::slot::{law_slots_have_their_names, slot_field, slot_named, Slot};
use crate::downgrade::{
    applied, mode_after, mode_of, selection, setting, Downgrade, InvalidDowngrade, Mistake, Mode,
    Setting, COLLECT_MODE,
};
use crate::order::{downgrades_of, law_name_reads_back, name, named, MemoryOrder};
use crate::rt::{place_text, Location, Place};
use crate::text::laws::law_split_is_at_the_last_colon;
use crate::text::{
    decimal, is_digit, lemma_decimal, lemma_decimal_reads_back, lemma_last_colon, parsed_u32,
    split_at_last_colon, unsigned_digits,
};

verus! {

pub open spec fn has_no_colon(s: Seq<char>) -> bool {
    !s.contains(':')
}

/// The selection of a run whose [`crate::downgrade::VAR`] asks for `setting`, which is `None` if
/// the run collects instead.
pub open spec fn selected(setting: Setting) -> Option<Mode> {
    match setting {
        Setting::Select { site, slot, from, to } => Some(Mode::Select { site, slot, from, to }),
        Setting::Collect => None,
    }
}

/// Whether `var` is `<file>:<line>:<column>[:<slot>]:<from>:<to>`, with those fields.
pub open spec fn has_format(
    var: Seq<char>,
    file: Seq<char>,
    line: Seq<char>,
    column: Seq<char>,
    slot: Slot,
    from: MemoryOrder,
    to: MemoryOrder,
) -> bool {
    var == file + ":"@ + line + ":"@ + column + ":"@ + slot_field(slot) + name(from) + ":"@ + name(
        to,
    )
}

/// A string splits at the `:` that is followed by none.
proof fn lemma_split(before: Seq<char>, after: Seq<char>)
    requires
        has_no_colon(after),
    ensures
        split_at_last_colon(before + ":"@ + after) == Some((before, after)),
{
    reveal_strlit(":");
    let s = before + ":"@ + after;
    let i = before.len() as int;
    assert(s[i] == ':');
    assert forall|j: int| i < j < s.len() implies s[j] != ':' by {
        assert(s[j] == after[j - i - 1]);
    }
    lemma_last_colon(s, i);
    assert(s.take(i) =~= before);
    assert(s.skip(i + 1) =~= after);
}

/// What a string splits into makes it up.
proof fn lemma_split_parts(s: Seq<char>)
    ensures
        split_at_last_colon(s) matches Some((before, after)) ==> s == before + ":"@ + after
            && has_no_colon(after),
{
    reveal_strlit(":");
    s.index_of_last_ensures(':');
    if let Some((before, after)) = split_at_last_colon(s) {
        assert(s =~= before + ":"@ + after);
    }
}

/// A name of an ordering has no `:`.
proof fn lemma_name_has_no_colon(order: MemoryOrder)
    ensures
        has_no_colon(name(order)),
{
    reveal_strlit("Relaxed");
    reveal_strlit("Acquire");
    reveal_strlit("Release");
    reveal_strlit("AcqRel");
    reveal_strlit("SeqCst");
}

/// A written number has no `:`, and is not a name of a slot.
proof fn lemma_number_is_no_slot(s: Seq<char>)
    requires
        parsed_u32(s) is Some,
    ensures
        has_no_colon(s),
        slot_named(s) is None,
{
    let digits = unsigned_digits(s);
    assert forall|i: int| 0 <= i < s.len() implies s[i] == '+' || is_digit(s[i]) by {
        if s[0] == '+' {
            if i > 0 {
                assert(s[i] == digits[i - 1]);
            }
        } else {
            assert(s[i] == digits[i]);
        }
    }
    reveal_strlit("success");
    reveal_strlit("failure");
    assert("success"@[0] == 's');
    assert("failure"@[0] == 'f');
}

/// A name of an ordering stands for that ordering only.
proof fn lemma_named(s: Seq<char>, order: MemoryOrder)
    ensures
        named(s) == Some(order) <==> s == name(order),
{
    law_name_reads_back(order);
}

/// A value that has the format selects what it says.
proof fn lemma_format_selects(
    var: Seq<char>,
    file: Seq<char>,
    line: Seq<char>,
    column: Seq<char>,
    slot: Slot,
    from: MemoryOrder,
    to: MemoryOrder,
)
    requires
        has_format(var, file, line, column, slot, from, to),
        parsed_u32(line) is Some,
        parsed_u32(column) is Some,
    ensures
        setting(var) == Ok::<Setting, Mistake>(
            Setting::Select {
                site: Place { file, line: parsed_u32(line)->0, column: parsed_u32(column)->0 },
                slot,
                from,
                to,
            },
        ),
{
    lemma_name_has_no_colon(from);
    lemma_name_has_no_colon(to);
    lemma_number_is_no_slot(line);
    lemma_number_is_no_slot(column);
    law_name_reads_back(from);
    law_name_reads_back(to);
    reveal_strlit(":");
    reveal_strlit("");
    reveal_strlit("success");
    reveal_strlit("failure");
    reveal_strlit("success:");
    reveal_strlit("failure:");
    reveal_strlit("collect");

    let site = file + ":"@ + line + ":"@ + column;
    let field = match slot {
        Slot::Single => column,
        Slot::Success => "success"@,
        Slot::Failure => "failure"@,
    };
    let head = match slot {
        Slot::Single => file + ":"@ + line,
        _ => site,
    };
    let rest = head + ":"@ + field;
    assert(has_no_colon("success"@));
    assert(has_no_colon("failure"@));
    assert("success:"@ =~= "success"@ + ":"@);
    assert("failure:"@ =~= "failure"@ + ":"@);
    assert(var =~= rest + ":"@ + name(from) + ":"@ + name(to));
    lemma_split(rest + ":"@ + name(from), name(to));
    lemma_split(rest, name(from));
    lemma_split(head, field);
    assert("success"@[0] != "failure"@[0]);
    assert(slot is Single ==> rest =~= site);
    lemma_split(file + ":"@ + line, column);
    lemma_split(file, line);
    assert(site_in(site) == Some(
        Place { file, line: parsed_u32(line)->0, column: parsed_u32(column)->0 },
    ));
    // The value contains a `:`, and the name of the collecting mode does not.
    let i = (rest + ":"@ + name(from)).len() as int;
    assert(var[i] == ':');
    assert(COLLECT_MODE@ == "collect"@);
    assert(!"collect"@.contains(':'));
}

/// The name of a slot with the `:` that follows it is its field.
proof fn lemma_slot_field(field: Seq<char>)
    ensures
        slot_named(field) matches Some(slot) ==> slot_field(slot) == field + ":"@ && !(slot
            is Single),
        slot_field(Slot::Single) == Seq::<char>::empty(),
{
    reveal_strlit(":");
    reveal_strlit("");
    reveal_strlit("success");
    reveal_strlit("failure");
    reveal_strlit("success:");
    reveal_strlit("failure:");
    assert("success:"@ =~= "success"@ + ":"@);
    assert("failure:"@ =~= "failure"@ + ":"@);
    assert(""@ =~= Seq::<char>::empty());
}

/// A value that selects an operation has the format.
proof fn lemma_selection_has_format(
    var: Seq<char>,
    site: Place,
    slot: Slot,
    from: MemoryOrder,
    to: MemoryOrder,
)
    requires
        setting(var) == Ok::<Setting, Mistake>(
            Setting::Select { site, slot, from, to },
        ),
    ensures
        exists|line: Seq<char>, column: Seq<char>| #[trigger]
            has_format(var, site.file, line, column, slot, from, to) && parsed_u32(line) == Some(
                site.line,
            ) && parsed_u32(column) == Some(site.column),
{
    let (rest1, to_name) = split_at_last_colon(var)->0;
    let (rest, from_name) = split_at_last_colon(rest1)->0;
    let (head, field) = split_at_last_colon(rest)->0;
    lemma_split_parts(var);
    lemma_split_parts(rest1);
    lemma_split_parts(rest);
    lemma_named(from_name, from);
    lemma_named(to_name, to);
    lemma_slot_field(field);
    let text = if slot_named(field) is Some {
        head
    } else {
        rest
    };
    lemma_split_parts(text);
    let (file_line, column) = split_at_last_colon(text)->0;
    lemma_split_parts(file_line);
    let (file, line) = split_at_last_colon(file_line)->0;
    assert(text == file + ":"@ + line + ":"@ + column);
    assert(rest + ":"@ == text + ":"@ + slot_field(slot)) by {
        if slot_named(field) is Some {
            assert(rest + ":"@ =~= head + ":"@ + (field + ":"@));
        } else {
            assert(rest + ":"@ =~= rest + ":"@ + Seq::<char>::empty());
        }
    }
    assert(has_format(var, site.file, line, column, slot, from, to));
}

/// A value selects an operation exactly when it is
/// `<file>:<line>:<column>[:<slot>]:<from>:<to>`, and then it selects the one that it says.
pub proof fn law_selection_has_the_format(
    var: Seq<char>,
    site: Place,
    slot: Slot,
    from: MemoryOrder,
    to: MemoryOrder,
)
    ensures
        setting(var) == Ok::<Setting, Mistake>(
            Setting::Select { site, slot, from, to },
        ) <==> exists|line: Seq<char>, column: Seq<char>| #[trigger]
            has_format(var, site.file, line, column, slot, from, to) && parsed_u32(line) == Some(
                site.line,
            ) && parsed_u32(column) == Some(site.column),
{
    if exists|line: Seq<char>, column: Seq<char>| #[trigger]
        has_format(var, site.file, line, column, slot, from, to) && parsed_u32(line) == Some(
            site.line,
        ) && parsed_u32(column) == Some(site.column) {
        let (line, column) = choose|line: Seq<char>, column: Seq<char>| #[trigger]
            has_format(var, site.file, line, column, slot, from, to) && parsed_u32(line) == Some(
                site.line,
            ) && parsed_u32(column) == Some(site.column);
        lemma_format_selects(var, site.file, line, column, slot, from, to);
    }
    if setting(var) == Ok::<Setting, Mistake>(
        Setting::Select { site, slot, from, to },
    ) {
        lemma_selection_has_format(var, site, slot, from, to);
    }
}

/// A written place reads back as that place, whatever its file contains.
pub proof fn law_place_reads_back(place: Place)
    ensures
        site_in(place_text(place)) == Some(place),
{
    let line = decimal(place.line as nat);
    let column = decimal(place.column as nat);
    lemma_decimal_reads_back(place.line);
    lemma_decimal_reads_back(place.column);
    lemma_number_is_no_slot(line);
    lemma_number_is_no_slot(column);
    lemma_split(place.file + ":"@ + line, column);
    lemma_split(place.file, line);
}

/// A listed downgrade is the value selecting it.
pub proof fn law_listed_downgrade_selects_itself(entry: Entry, to: MemoryOrder)
    ensures
        setting(downgrade_text(entry, to)) == Ok::<Setting, Mistake>(
            Setting::Select { site: entry.place, slot: entry.slot, from: entry.from, to },
        ),
{
    let line = decimal(entry.place.line as nat);
    let column = decimal(entry.place.column as nat);
    lemma_decimal_reads_back(entry.place.line);
    lemma_decimal_reads_back(entry.place.column);
    let var = downgrade_text(entry, to);
    assert(has_format(var, entry.place.file, line, column, entry.slot, entry.from, to));
    lemma_format_selects(
        var,
        entry.place.file,
        line,
        column,
        entry.slot,
        entry.from,
        to,
    );
}

/// A run with a listed downgrade reproduces it: the operation that it was collected from uses
/// the weaker ordering, and every other operation keeps its own.
pub proof fn law_listed_downgrade_is_reproduced(
    entry: Entry,
    to: MemoryOrder,
    place: Place,
    slot: Slot,
    order: MemoryOrder,
)
    requires
        !(entry.from is Relaxed),
    ensures
        setting(downgrade_text(entry, to)) matches Ok(setting) && applied(
            selected(setting),
            place,
            slot,
            order,
        ) == if (Entry { place, slot, from: order }) == entry {
            to
        } else {
            order
        },
{
    law_listed_downgrade_selects_itself(entry, to);
}

/// A selection downgrades the operation at its site with its slot and its ordering, unless it
/// is `Relaxed`, and leaves every other operation alone.
pub proof fn law_only_the_selected_operation_is_downgraded(
    selection: Entry,
    to: MemoryOrder,
    place: Place,
    slot: Slot,
    order: MemoryOrder,
)
    ensures
        applied(
            Some(
                Mode::Select {
                    site: selection.place,
                    slot: selection.slot,
                    from: selection.from,
                    to,
                },
            ),
            place,
            slot,
            order,
        ) == if (Entry { place, slot, from: order }) == selection && !(order is Relaxed) {
            to
        } else {
            order
        },
{
}

/// A `Relaxed` operation is neither downgraded nor collected.
pub proof fn law_relaxed_is_left_alone(mode: Option<Mode>, place: Place, slot: Slot)
    ensures
        applied(mode, place, slot, MemoryOrder::Relaxed) == MemoryOrder::Relaxed,
        mode_after(mode, place, slot, MemoryOrder::Relaxed) == mode,
{
}

/// A collecting run downgrades nothing.
pub proof fn law_collecting_downgrades_nothing(
    collection: Collection,
    place: Place,
    slot: Slot,
    order: MemoryOrder,
)
    ensures
        applied(Some(Mode::Collect(collection)), place, slot, order) == order,
{
}

/// A run that selects a downgrade collects nothing, and selects it until its end.
pub proof fn law_selection_is_kept(
    site: Place,
    selected: Slot,
    from: MemoryOrder,
    to: MemoryOrder,
    place: Place,
    slot: Slot,
    order: MemoryOrder,
)
    ensures
        mode_after(
            Some(Mode::Select { site, slot: selected, from, to }),
            place,
            slot,
            order,
        ) == Some(Mode::Select { site, slot: selected, from, to }),
        mode_after(None, place, slot, order) is None,
        applied(None, place, slot, order) == order,
{
}

/// Whether only downgradable operations of the library under test are collected, in order and
/// each of them once.
pub open spec fn collects_properly(mode: Option<Mode>) -> bool {
    mode matches Some(Mode::Collect(collection)) ==> {
        &&& is_well_formed(collection)
        &&& forall|i: int|
            0 <= i < collection.entries.len() ==> !((#[trigger] collection.entries[i]).from
                is Relaxed)
    }
}

/// Every operation of a run keeps the collected operations as they should be.
pub proof fn law_operations_keep_the_collection_proper(
    mode: Option<Mode>,
    place: Place,
    slot: Slot,
    order: MemoryOrder,
)
    requires
        collects_properly(mode),
    ensures
        collects_properly(mode_after(mode, place, slot, order)),
{
    if let Some(Mode::Collect(collection)) = mode {
        if !(order is Relaxed) {
            law_collecting_adds_the_operation(collection, place, slot, order);
            let after = collected_into(collection, place, slot, order);
            assert forall|i: int| 0 <= i < after.entries.len() implies !((
            #[trigger] after.entries[i]).from is Relaxed) by {
                let e = after.entries[i];
                assert(after.entries.contains(e));
                if collection.entries.contains(e) {
                    let k = choose|k: int|
                        0 <= k < collection.entries.len() && collection.entries[k] == e;
                    assert(!(collection.entries[k].from is Relaxed));
                }
            }
        }
    }
}

/// The listed downgrades are the possible ones of the collected operations, and no others.
pub proof fn law_listed_downgrades_are_exhaustive(entries: Seq<Entry>, text: Seq<char>)
    ensures
        all_downgrades(entries).contains(text) <==> exists|entry: Entry, to: MemoryOrder|
            #![trigger downgrade_text(entry, to)]
            entries.contains(entry) && downgrades_of(entry.from).contains(to) && text
                == downgrade_text(entry, to),
    decreases entries.len(),
{
    if entries.len() > 0 {
        let head = entries.drop_last();
        let last = entries.last();
        law_listed_downgrades_are_exhaustive(head, text);
        let listed = all_downgrades(head);
        let added = entry_downgrades(last);
        if all_downgrades(entries).contains(text) {
            let i = choose|i: int|
                0 <= i < all_downgrades(entries).len() && all_downgrades(entries)[i] == text;
            if i < listed.len() {
                assert(listed[i] == text);
                let (entry, to) = choose|entry: Entry, to: MemoryOrder|
                    #![trigger downgrade_text(entry, to)]
                    head.contains(entry) && downgrades_of(entry.from).contains(to) && text
                        == downgrade_text(entry, to);
                let k = choose|k: int| 0 <= k < head.len() && head[k] == entry;
                assert(entries[k] == entry);
            } else {
                let j = i - listed.len();
                let to = downgrades_of(last.from)[j];
                assert(added[j] == downgrade_text(last, to));
                assert(entries[entries.len() - 1] == last);
            }
        }
        if exists|entry: Entry, to: MemoryOrder|
            #![trigger downgrade_text(entry, to)]
            entries.contains(entry) && downgrades_of(entry.from).contains(to) && text
                == downgrade_text(entry, to) {
            let (entry, to) = choose|entry: Entry, to: MemoryOrder|
                #![trigger downgrade_text(entry, to)]
                entries.contains(entry) && downgrades_of(entry.from).contains(to) && text
                    == downgrade_text(entry, to);
            let k = choose|k: int| 0 <= k < entries.len() && entries[k] == entry;
            if k < head.len() {
                assert(head[k] == entry);
                assert(listed.contains(text));
                let i = choose|i: int| 0 <= i < listed.len() && listed[i] == text;
                assert(all_downgrades(entries)[i] == text);
            } else {
                let j = choose|j: int|
                    0 <= j < downgrades_of(entry.from).len() && downgrades_of(entry.from)[j] == to;
                assert(added[j] == text);
                assert(all_downgrades(entries)[listed.len() + j] == text);
            }
        }
    }
}

/// A text made of two that have no single quote has none either.
proof fn lemma_no_quote_concat(a: Seq<char>, b: Seq<char>)
    requires
        !a.contains('\''),
        !b.contains('\''),
    ensures
        !(a + b).contains('\''),
{
    assert forall|i: int| 0 <= i < (a + b).len() implies (a + b)[i] != '\'' by {
        if i < a.len() {
            assert((a + b)[i] == a[i]);
        } else {
            assert((a + b)[i] == b[i - a.len()]);
        }
    }
}

/// A written number has no single quote.
proof fn lemma_decimal_has_no_quote(n: nat)
    ensures
        !decimal(n).contains('\''),
{
    lemma_decimal(n);
    if decimal(n).contains('\'') {
        let i = choose|i: int| 0 <= i < decimal(n).len() && decimal(n)[i] == '\'';
        assert(is_digit(decimal(n)[i]));
    }
}

/// A single quote of a listed downgrade can only be that of its file.
proof fn lemma_downgrade_has_no_quote(entry: Entry, to: MemoryOrder)
    requires
        !entry.place.file.contains('\''),
    ensures
        !downgrade_text(entry, to).contains('\''),
{
    let line = decimal(entry.place.line as nat);
    let column = decimal(entry.place.column as nat);
    let field = slot_field(entry.slot);
    assert(!":"@.contains('\'') && !field.contains('\'') && !name(entry.from).contains('\'')
        && !name(to).contains('\'')) by {
        reveal_strlit(":");
        reveal_strlit("");
        reveal_strlit("success:");
        reveal_strlit("failure:");
        reveal_strlit("Relaxed");
        reveal_strlit("Acquire");
        reveal_strlit("Release");
        reveal_strlit("AcqRel");
        reveal_strlit("SeqCst");
    }
    lemma_decimal_has_no_quote(entry.place.line as nat);
    lemma_decimal_has_no_quote(entry.place.column as nat);
    let file = entry.place.file;
    lemma_no_quote_concat(file, ":"@);
    lemma_no_quote_concat(file + ":"@, line);
    lemma_no_quote_concat(file + ":"@ + line, ":"@);
    lemma_no_quote_concat(file + ":"@ + line + ":"@, column);
    let place = place_text(entry.place);
    lemma_no_quote_concat(place, ":"@);
    lemma_no_quote_concat(place + ":"@, field);
    lemma_no_quote_concat(place + ":"@ + field, name(entry.from));
    lemma_no_quote_concat(place + ":"@ + field + name(entry.from), ":"@);
    lemma_no_quote_concat(place + ":"@ + field + name(entry.from) + ":"@, name(to));
}

/// A shell reads the array of the script as the listed downgrades, if no name of a file contains
/// a single quote.
pub proof fn law_array_of_the_script_reads_back(entries: Seq<Entry>)
    requires
        forall|i: int|
            0 <= i < entries.len() ==> !(#[trigger] entries[i]).place.file.contains('\''),
    ensures
        array_items(array_lines(all_downgrades(entries))) == Some(all_downgrades(entries)),
{
    let texts = all_downgrades(entries);
    assert forall|i: int| 0 <= i < texts.len() implies !(#[trigger] texts[i]).contains('\'') by {
        let text = texts[i];
        law_listed_downgrades_are_exhaustive(entries, text);
        assert(texts.contains(text));
        let (entry, to) = choose|entry: Entry, to: MemoryOrder|
            #![trigger downgrade_text(entry, to)]
            entries.contains(entry) && downgrades_of(entry.from).contains(to) && text
                == downgrade_text(entry, to);
        lemma_downgrade_has_no_quote(entry, to);
    }
    law_array_reads_back(texts);
}

/// Two different downgrades are not listed as the same value.
pub proof fn law_listed_downgrades_differ(a: Entry, to_a: MemoryOrder, b: Entry, to_b: MemoryOrder)
    requires
        downgrade_text(a, to_a) == downgrade_text(b, to_b),
    ensures
        a == b,
        to_a == to_b,
{
    law_listed_downgrade_selects_itself(a, to_a);
    law_listed_downgrade_selects_itself(b, to_b);
}

/// No downgrade is listed twice.
pub proof fn law_no_downgrade_is_listed_twice(entries: Seq<Entry>)
    requires
        is_sorted(entries),
    ensures
        all_downgrades(entries).no_duplicates(),
    decreases entries.len(),
{
    if entries.len() > 0 {
        let head = entries.drop_last();
        let last = entries.last();
        law_no_downgrade_is_listed_twice(head);
        let listed = all_downgrades(head);
        let added = entry_downgrades(last);
        let all = all_downgrades(entries);
        assert forall|i: int, j: int| 0 <= i < j < all.len() implies all[i] != all[j] by {
            if j < listed.len() {
                assert(all[i] == listed[i] && all[j] == listed[j]);
            } else {
                let to = downgrades_of(last.from)[j - listed.len()];
                assert(all[j] == downgrade_text(last, to));
                if i < listed.len() {
                    assert(listed.contains(all[i]));
                    law_listed_downgrades_are_exhaustive(head, all[i]);
                    let (entry, other) = choose|entry: Entry, other: MemoryOrder|
                        #![trigger downgrade_text(entry, other)]
                        head.contains(entry) && downgrades_of(entry.from).contains(other) && all[i]
                            == downgrade_text(entry, other);
                    let k = choose|k: int| 0 <= k < head.len() && head[k] == entry;
                    assert(entry_before(entries[k], entries[entries.len() - 1]));
                    lemma_entry_irreflexive(last);
                    if all[i] == all[j] {
                        law_listed_downgrades_differ(entry, other, last, to);
                    }
                } else {
                    let other = downgrades_of(last.from)[i - listed.len()];
                    assert(all[i] == downgrade_text(last, other));
                    assert(other != to);
                    if all[i] == all[j] {
                        law_listed_downgrades_differ(last, other, last, to);
                    }
                }
            }
        }
    }
}

/// The script does not depend on the order of execution either.
pub proof fn law_script_ignores_execution_order(
    rustflags: Option<Seq<char>>,
    collection: Collection,
    executed: Seq<Entry>,
    other: Seq<Entry>,
)
    requires
        is_well_formed(collection),
        forall|e: Entry| executed.contains(e) <==> other.contains(e),
    ensures
        script(rustflags, all_collected_into(collection, executed).entries) == script(
            rustflags,
            all_collected_into(collection, other).entries,
        ),
{
    law_collection_ignores_execution_order(collection, executed, other);
}

/// A run collects exactly when its variable is `collect`.
pub proof fn law_collecting_is_asked_for_by_name(var: Seq<char>)
    ensures
        setting(var) == Ok::<Setting, Mistake>(Setting::Collect) <==> var == "collect"@,
{
}

/// Whether `var` is `<site>[:<slot>]:<from>:<to>`, whatever its site and the names of its
/// orderings are, `field` being its slot with the `:` that follows it. What precedes the
/// orderings ends with a slot or with a number.
pub open spec fn has_fields(
    var: Seq<char>,
    site: Seq<char>,
    field: Seq<char>,
    from: Seq<char>,
    to: Seq<char>,
) -> bool {
    &&& var == site + seq![':'] + field + from + seq![':'] + to
    &&& !from.contains(':') && !to.contains(':')
    &&& field == "success:"@ || field == "failure:"@ || field.len() == 0 && exists|
        head: Seq<char>,
        number: Seq<char>,
    |
        site == #[trigger] (head + seq![':'] + number) && parsed_u32(number) is Some
}

/// The last field before the orderings, and what precedes it.
proof fn lemma_fields_split(
    var: Seq<char>,
    site: Seq<char>,
    field: Seq<char>,
    from: Seq<char>,
    to: Seq<char>,
)
    requires
        has_fields(var, site, field, from, to),
    ensures
        setting(var) == (if field == "success:"@ {
            selection(site, Slot::Success, from, to)
        } else if field == "failure:"@ {
            selection(site, Slot::Failure, from, to)
        } else {
            selection(site, Slot::Single, from, to)
        }),
{
    reveal_strlit("collect");
    reveal_strlit("success");
    reveal_strlit("failure");
    reveal_strlit("success:");
    reveal_strlit("failure:");
    assert("success:"@ =~= "success"@ + seq![':']);
    assert("failure:"@ =~= "failure"@ + seq![':']);
    assert("success"@[0] != "failure"@[0] && "success:"@[0] != "failure:"@[0]);
    assert(!"success"@.contains(':') && !"failure"@.contains(':'));
    let k = (site + seq![':'] + field + from).len() as int;
    assert(var[k] == ':');
    assert(COLLECT_MODE@ == "collect"@ && !"collect"@.contains(':'));
    law_split_is_at_the_last_colon(var, site + seq![':'] + field + from, to);
    if field.len() == 0 {
        let rest = site;
        assert(site + seq![':'] + field + from =~= rest + seq![':'] + from);
        law_split_is_at_the_last_colon(rest + seq![':'] + from, rest, from);
        let (head, number) = choose|head: Seq<char>, number: Seq<char>|
            site == #[trigger] (head + seq![':'] + number) && parsed_u32(number) is Some;
        lemma_number_is_no_slot(number);
        law_split_is_at_the_last_colon(rest, head, number);
    } else {
        let word = if field == "success:"@ {
            "success"@
        } else {
            "failure"@
        };
        let rest = site + seq![':'] + word;
        assert(site + seq![':'] + field + from =~= rest + seq![':'] + from);
        law_split_is_at_the_last_colon(rest + seq![':'] + from, rest, from);
        law_split_is_at_the_last_colon(rest, site, word);
    }
}

/// A value is rejected for its site exactly when it has all of its fields, and the site is not a
/// place, whatever the names of the orderings are.
pub proof fn law_site_is_rejected_when_it_is_no_place(var: Seq<char>, site: Seq<char>)
    ensures
        setting(var) == Err::<Setting, Mistake>(Mistake::Site(site)) <==> site_in(site) is None
            && exists|field: Seq<char>, from: Seq<char>, to: Seq<char>|
            has_fields(var, site, field, from, to),
{
    if exists|field: Seq<char>, from: Seq<char>, to: Seq<char>|
        has_fields(var, site, field, from, to) {
        let (field, from, to) = choose|field: Seq<char>, from: Seq<char>, to: Seq<char>|
            has_fields(var, site, field, from, to);
        lemma_fields_split(var, site, field, from, to);
    }
    if setting(var) == Err::<Setting, Mistake>(Mistake::Site(site)) {
        let (rest1, to) = split_at_last_colon(var)->0;
        let (rest, from) = split_at_last_colon(rest1)->0;
        let (head, word) = split_at_last_colon(rest)->0;
        law_split_is_at_the_last_colon(var, rest1, to);
        law_split_is_at_the_last_colon(rest1, rest, from);
        law_split_is_at_the_last_colon(rest, head, word);
        reveal_strlit("success");
        reveal_strlit("failure");
        reveal_strlit("success:");
        reveal_strlit("failure:");
        assert("success:"@ =~= "success"@ + seq![':']);
        assert("failure:"@ =~= "failure"@ + seq![':']);
        if slot_named(word) is Some {
            let field = word + seq![':'];
            assert(var =~= site + seq![':'] + field + from + seq![':'] + to);
            assert(has_fields(var, site, field, from, to));
        } else {
            let field = Seq::<char>::empty();
            assert(site == head + seq![':'] + word);
            assert(var =~= site + seq![':'] + field + from + seq![':'] + to);
            assert(has_fields(var, site, field, from, to));
        }
    }
}

/// A rejected value is told with the site that it is rejected for, if it is.
pub proof fn law_rejection_is_what_it_says(invalid: InvalidDowngrade)
    ensures
        invalid is Variable <==> invalid@ is Variable,
        invalid matches InvalidDowngrade::Site(site) ==> invalid@ == Mistake::Site(site@),
{
}

/// Whether a location is that of a site.
pub open spec fn is_at(site: Site, location: Location<'_>) -> bool {
    &&& site.file@ == location.file@
    &&& site.line == location.line
    &&& site.column == location.column
}

/// A run that selects an ordering downgrades it wherever it is met: at its site, in its slot. No
/// other ordering is changed, and the run goes on with its selection.
pub proof fn law_selected_ordering_is_downgraded(
    site: Site,
    selected: Slot,
    from: MemoryOrder,
    to: MemoryOrder,
    location: Location<'_>,
    slot: Slot,
    order: MemoryOrder,
)
    ensures
        ({
            let mode = mode_of(Some(Downgrade::Select { site, slot: selected, from, to }));
            &&& is_at(site, location) && selected == slot && from == order && !(order is Relaxed)
                ==> applied(mode, location@, slot, order) == to
            &&& !is_at(site, location) || selected != slot || from != order || order is Relaxed
                ==> applied(mode, location@, slot, order) == order
            &&& mode_after(mode, location@, slot, order) == mode
        }),
{
    assert(is_at(site, location) ==> site@ =~= location@);
}

/// A run without a variable leaves every ordering alone, and stays so.
pub proof fn law_unset_run_leaves_orderings_alone(
    location: Location<'_>,
    slot: Slot,
    order: MemoryOrder,
)
    ensures
        applied(mode_of(None), location@, slot, order) == order,
        mode_after(mode_of(None), location@, slot, order) is None,
{
}

/// A collecting run uses every ordering as it is, and holds afterwards what it held before and
/// the executed operation, if it belongs to the library under test and its ordering can be
/// downgraded; the script is to be written again exactly if that is something new.
pub proof fn law_executed_operation_is_collected(
    collector: Collector,
    location: Location<'_>,
    slot: Slot,
    order: MemoryOrder,
)
    requires
        is_well_formed(collector@),
    ensures
        ({
            let mode = mode_of(Some(Downgrade::Collect(collector)));
            let entry = Entry {
                place: Place {
                    file: location.file@,
                    line: location.line,
                    column: location.column,
                },
                slot,
                from: order,
            };
            let collects = is_in_scope(location.file@, collector@.backslash_separates) && !(order
                is Relaxed);
            &&& applied(mode, location@, slot, order) == order
            &&& mode_after(mode, location@, slot, order) matches Some(Mode::Collect(after))
            &&& forall|e: Entry| #[trigger]
                after.entries.contains(e) <==> collector@.entries.contains(e) || collects && e
                    == entry
            &&& is_sorted(after.entries)
            &&& after.outdated <==> collector@.outdated || collects
                && !collector@.entries.contains(entry)
            &&& after.backslash_separates == collector@.backslash_separates
        }),
{
    law_collecting_adds_the_operation(collector@, location@, slot, order);
}

/// What becomes of the mode of a run once the operations were executed, in that order.
pub open spec fn mode_after_all(mode: Option<Mode>, executed: Seq<Entry>) -> Option<Mode>
    decreases executed.len(),
{
    if executed.len() == 0 {
        mode
    } else {
        let last = executed.last();
        mode_after(
            mode_after_all(mode, executed.drop_last()),
            last.place,
            last.slot,
            last.from,
        )
    }
}

/// A collecting run ends up with what it held before and every executed operation that belongs
/// to the library under test and can be downgraded, in order and each of them once.
pub proof fn law_every_executed_operation_is_collected(
    collection: Collection,
    executed: Seq<Entry>,
)
    requires
        is_well_formed(collection),
    ensures
        mode_after_all(Some(Mode::Collect(collection)), executed) matches Some(
            Mode::Collect(after),
        ) && is_well_formed(after) && after.backslash_separates == collection.backslash_separates
            && forall|e: Entry| #[trigger]
            after.entries.contains(e) <==> {
                ||| collection.entries.contains(e)
                ||| executed.contains(e) && !(e.from is Relaxed) && is_in_scope(
                    e.place.file,
                    collection.backslash_separates,
                )
            },
    decreases executed.len(),
{
    if executed.len() > 0 {
        let head = executed.drop_last();
        let last = executed.last();
        law_every_executed_operation_is_collected(collection, head);
        let before = mode_after_all(Some(Mode::Collect(collection)), head)->0->Collect_0;
        law_collecting_adds_the_operation(before, last.place, last.slot, last.from);
        assert(last == (Entry { place: last.place, slot: last.slot, from: last.from }));
        assert forall|e: Entry| #[trigger] executed.contains(e) <==> head.contains(e) || e
            == last by {
            if executed.contains(e) {
                let i = choose|i: int| 0 <= i < executed.len() && executed[i] == e;
                if i < head.len() {
                    assert(head[i] == e);
                }
            }
            if head.contains(e) {
                let i = choose|i: int| 0 <= i < head.len() && head[i] == e;
                assert(executed[i] == e);
            }
            assert(executed[executed.len() - 1] == last);
        }
        let after = mode_after_all(Some(Mode::Collect(collection)), executed)->0->Collect_0;
        assert forall|e: Entry| #[trigger] after.entries.contains(e) <==> {
            ||| collection.entries.contains(e)
            ||| executed.contains(e) && !(e.from is Relaxed) && is_in_scope(
                e.place.file,
                collection.backslash_separates,
            )
        } by {
            assert(executed.contains(e) <==> head.contains(e) || e == last);
            assert(before.entries.contains(e) <==> {
                ||| collection.entries.contains(e)
                ||| head.contains(e) && !(e.from is Relaxed) && is_in_scope(
                    e.place.file,
                    collection.backslash_separates,
                )
            });
        }
    }
}

/// The script of a collecting run lists a downgrade exactly when it is one of an executed
/// operation that belongs to the library under test.
pub proof fn law_every_executed_downgrade_is_listed(
    backslash_separates: bool,
    executed: Seq<Entry>,
    text: Seq<char>,
)
    ensures
        ({
            let start = Collection { entries: seq![], outdated: false, backslash_separates };
            mode_after_all(Some(Mode::Collect(start)), executed) matches Some(Mode::Collect(after))
                && (all_downgrades(after.entries).contains(text) <==> exists|
                entry: Entry,
                to: MemoryOrder,
            |
                #![trigger downgrade_text(entry, to)]
                executed.contains(entry) && is_in_scope(entry.place.file, backslash_separates)
                    && downgrades_of(entry.from).contains(to) && text == downgrade_text(entry, to))
        }),
{
    let start = Collection { entries: seq![], outdated: false, backslash_separates };
    law_every_executed_operation_is_collected(start, executed);
    let after = mode_after_all(Some(Mode::Collect(start)), executed)->0->Collect_0;
    law_listed_downgrades_are_exhaustive(after.entries, text);
    if all_downgrades(after.entries).contains(text) {
        let (entry, to) = choose|entry: Entry, to: MemoryOrder|
            #![trigger downgrade_text(entry, to)]
            after.entries.contains(entry) && downgrades_of(entry.from).contains(to) && text
                == downgrade_text(entry, to);
        assert(executed.contains(entry));
    }
    if exists|entry: Entry, to: MemoryOrder|
        #![trigger downgrade_text(entry, to)]
        executed.contains(entry) && is_in_scope(entry.place.file, backslash_separates)
            && downgrades_of(entry.from).contains(to) && text == downgrade_text(entry, to) {
        let (entry, to) = choose|entry: Entry, to: MemoryOrder|
            #![trigger downgrade_text(entry, to)]
            executed.contains(entry) && is_in_scope(entry.place.file, backslash_separates)
                && downgrades_of(entry.from).contains(to) && text == downgrade_text(entry, to);
        assert(after.entries.contains(entry));
    }
}

/// A downgrade is listed as the place, the slot if it has a name, and the names of the two
/// orderings, with a `:` between two of them.
pub proof fn law_downgrade_is_listed_as_its_fields(entry: Entry, to: MemoryOrder)
    ensures
        downgrade_text(entry, to) == entry.place.file + seq![':'] + decimal(
            entry.place.line as nat,
        ) + seq![':'] + decimal(entry.place.column as nat) + seq![':'] + (match entry.slot {
            Slot::Single => Seq::<char>::empty(),
            Slot::Success => "success"@ + seq![':'],
            Slot::Failure => "failure"@ + seq![':'],
        }) + name(entry.from) + seq![':'] + name(to),
{
    reveal_strlit(":");
    reveal_strlit("");
    assert(":"@ =~= seq![':']);
    assert(""@ =~= Seq::<char>::empty());
    law_slots_have_their_names("success"@, Slot::Success);
    law_slots_have_their_names("failure"@, Slot::Failure);
}

} // verus!
