//! Collecting the downgradable operations that a run executes.

use vstd::prelude::*;

use crate::downgrade::script::{script, text_of, write_script};
use crate::downgrade::slot::{slot_rank, Slot};
use crate::order::{law_names_differ, name, ordering_name, MemoryOrder};
use crate::rt::{Location, Place};
use crate::text::{
    is_text_before, lemma_text_irreflexive, lemma_text_total, lemma_text_transitive, same_text,
    text_before,
};

verus! {

/// The directory of the code whose orderings are checked, i.e. the library itself.
pub const SCOPE: &'static str = "src";

/// `std::path::is_separator` tells whether a character separates the components of a path on
/// the current platform. Nothing is claimed of its result, which depends on the platform.
pub assume_specification[ std::path::is_separator ](c: char) -> bool;

/// What selects a downgradable operation: its call site, its slot and its ordering.
#[verifier::ext_equal]
pub struct Entry {
    pub place: Place,
    pub slot: Slot,
    pub from: MemoryOrder,
}

/// A collected operation, keyed by everything needed to select it.
#[derive(Debug, Copy, Clone)]
pub struct Collected {
    pub file: &'static str,
    pub line: u32,
    pub column: u32,
    pub slot: Slot,
    pub from: MemoryOrder,
}

impl View for Collected {
    type V = Entry;

    open spec fn view(&self) -> Entry {
        Entry {
            place: Place { file: self.file@, line: self.line, column: self.column },
            slot: self.slot,
            from: self.from,
        }
    }
}

/// The order of the collected operations: by file, line, column, slot, and name of the
/// ordering.
pub open spec fn entry_before(a: Entry, b: Entry) -> bool {
    if a.place.file != b.place.file {
        text_before(a.place.file, b.place.file)
    } else if a.place.line != b.place.line {
        a.place.line < b.place.line
    } else if a.place.column != b.place.column {
        a.place.column < b.place.column
    } else if a.slot != b.slot {
        slot_rank(a.slot) < slot_rank(b.slot)
    } else {
        text_before(name(a.from), name(b.from))
    }
}

/// Whether each entry comes strictly before the next ones, so that none occurs twice.
pub open spec fn is_sorted(entries: Seq<Entry>) -> bool {
    forall|i: int, j: int|
        0 <= i < j < entries.len() ==> entry_before(#[trigger] entries[i], #[trigger] entries[j])
}

/// `entries` with `entry` at its place among them, i.e. after the last one that comes before it.
pub open spec fn with_entry(entries: Seq<Entry>, entry: Entry) -> Seq<Entry>
    decreases entries.len(),
{
    if entries.len() == 0 {
        seq![entry]
    } else if entry_before(entries.last(), entry) {
        entries.push(entry)
    } else {
        with_entry(entries.drop_last(), entry).push(entries.last())
    }
}

/// Whether a path is relative to the [`SCOPE`] directory, i.e. its first component is that
/// directory. A component ends at a `/`, and at a `\` where it separates too.
pub open spec fn is_in_scope(file: Seq<char>, backslash_separates: bool) -> bool {
    let n = SCOPE@.len() as int;
    &&& SCOPE@.is_prefix_of(file)
    &&& file.len() > n ==> file[n] == '/' || backslash_separates && file[n] == '\\'
}

/// Whether `separates` is what the current platform answers when it is asked whether `\` is a
/// separator.
pub open spec fn is_platform_answer(separates: bool) -> bool {
    call_ensures(std::path::is_separator, ('\\',), separates)
}

/// The entries of a sequence of collected operations.
pub open spec fn entries_of(collected: Seq<Collected>) -> Seq<Entry> {
    collected.map_values(|c: Collected| c@)
}

/// The state of a collecting run.
#[verifier::ext_equal]
pub struct Collection {
    /// The collected operations, in the order of [`entry_before`].
    pub entries: Seq<Entry>,
    /// Whether an operation was collected since the script was last written.
    pub outdated: bool,
    pub backslash_separates: bool,
}

/// The state of a collecting run once an operation was executed.
pub open spec fn collected_into(
    collection: Collection,
    place: Place,
    slot: Slot,
    order: MemoryOrder,
) -> Collection {
    let entry = Entry { place, slot, from: order };
    if !is_in_scope(place.file, collection.backslash_separates) || collection.entries.contains(
        entry,
    ) {
        collection
    } else {
        Collection {
            entries: with_entry(collection.entries, entry),
            outdated: true,
            ..collection
        }
    }
}

/// Whether the operation belongs to the library under test.
pub fn in_scope(file: &str, backslash_separates: bool) -> (belongs: bool)
    ensures
        belongs == is_in_scope(file@, backslash_separates),
{
    let n: usize = SCOPE.unicode_len();
    let len: usize = file.unicode_len();
    if len < n {
        return false;
    }
    if !same_text(file.substring_char(0, n), SCOPE) {
        proof {
            if SCOPE@.is_prefix_of(file@) {
                assert(file@.subrange(0, n as int) =~= SCOPE@);
            }
        }
        return false;
    }
    proof {
        assert(SCOPE@.is_prefix_of(file@));
    }
    if len == n {
        return true;
    }
    let c: char = file.get_char(n);
    c == '/' || backslash_separates && c == '\\'
}

/// Whether `a` comes strictly before `b`.
fn is_entry_before(a: &Collected, b: &Collected) -> (before: bool)
    ensures
        before == entry_before(a@, b@),
{
    if !same_text(a.file, b.file) {
        is_text_before(a.file, b.file)
    } else if a.line != b.line {
        a.line < b.line
    } else if a.column != b.column {
        a.column < b.column
    } else if a.slot != b.slot {
        a.slot.rank() < b.slot.rank()
    } else {
        is_text_before(ordering_name(a.from), ordering_name(b.from))
    }
}

/// Whether `a` and `b` are the same operation.
fn is_same_entry(a: &Collected, b: &Collected) -> (same: bool)
    ensures
        same == (a@ == b@),
{
    a.line == b.line && a.column == b.column && a.slot == b.slot && a.from == b.from && same_text(
        a.file,
        b.file,
    )
}

/// The operations collected by a run, and whether the script that lists them is up to date.
#[derive(Debug)]
pub struct Collector {
    collected: Vec<Collected>,
    outdated: bool,
    backslash_separates: bool,
}

impl View for Collector {
    type V = Collection;

    closed spec fn view(&self) -> Collection {
        Collection {
            entries: entries_of(self.collected@),
            outdated: self.outdated,
            backslash_separates: self.backslash_separates,
        }
    }
}

impl Collector {
    /// A collector without operations, for the paths of the current platform.
    pub fn new() -> (collector: Collector)
        ensures
            collector@.entries == Seq::<Entry>::empty(),
            !collector@.outdated,
            is_platform_answer(collector@.backslash_separates),
            is_well_formed(collector@),
    {
        Collector::with_separator(std::path::is_separator('\\'))
    }

    /// A collector without operations, for paths in which `\` is a separator or is not.
    pub fn with_separator(backslash_separates: bool) -> (collector: Collector)
        ensures
            collector@ == (Collection {
                entries: Seq::empty(),
                outdated: false,
                backslash_separates,
            }),
            is_well_formed(collector@),
    {
        let collector = Collector { collected: Vec::new(), outdated: false, backslash_separates };
        proof {
            assert(collector@.entries =~= Seq::<Entry>::empty());
        }
        collector
    }

    /// Records an executed downgradable operation.
    pub fn collect(&mut self, location: &Location<'static>, slot: Slot, order: MemoryOrder)
        ensures
            final(self)@ == collected_into(old(self)@, location@, slot, order),
            is_well_formed(old(self)@) ==> is_well_formed(final(self)@),
    {
        proof {
            if is_well_formed(self@) {
                law_collecting_adds_the_operation(self@, location@, slot, order);
            }
        }
        if !in_scope(location.file, self.backslash_separates) {
            return;
        }
        let entry = Collected {
            file: location.file,
            line: location.line,
            column: location.column,
            slot,
            from: order,
        };
        if self.contains(&entry) {
            return;
        }
        self.insert(entry);
        self.outdated = true;
    }

    /// The script running a command once per downgrade of the collected operations, if it
    /// changed since the last call. `rustflags` is the `RUSTFLAGS` of the collecting run, if
    /// it is set.
    pub fn take_script(&mut self, rustflags: Option<&str>) -> (text: Option<String>)
        ensures
            final(self)@ == (Collection { outdated: false, ..old(self)@ }),
            text is Some <==> old(self)@.outdated,
            text matches Some(text) ==> text@ == script(
                text_of(rustflags),
                old(self)@.entries,
            ),
    {
        if !self.outdated {
            return None;
        }
        self.outdated = false;
        Some(write_script(rustflags, &self.collected))
    }

    /// Whether the operation is already collected.
    fn contains(&self, entry: &Collected) -> (found: bool)
        ensures
            found == self@.entries.contains(entry@),
    {
        let mut i: usize = 0;
        while i < self.collected.len()
            invariant
                i <= self.collected.len(),
                forall|j: int| 0 <= j < i ==> self@.entries[j] != entry@,
            decreases self.collected.len() - i,
        {
            if is_same_entry(&self.collected[i], entry) {
                assert(self@.entries[i as int] == entry@);
                return true;
            }
            i = i + 1;
        }
        false
    }

    /// Adds an operation at its place.
    fn insert(&mut self, entry: Collected)
        ensures
            final(self)@ == (Collection {
                entries: with_entry(old(self)@.entries, entry@),
                ..old(self)@
            }),
    {
        let ghost entries = self@.entries;
        let mut i: usize = self.collected.len();
        proof {
            assert(entries.take(i as int) =~= entries);
            assert(with_entry(entries, entry@) =~= with_entry(entries.take(i as int), entry@)
                + entries.skip(i as int));
        }
        while i > 0 && !is_entry_before(&self.collected[i - 1], &entry)
            invariant
                i <= self.collected.len(),
                *self == *old(self),
                entries == self@.entries,
                with_entry(entries, entry@) == with_entry(entries.take(i as int), entry@)
                    + entries.skip(i as int),
            decreases i,
        {
            i = i - 1;
            proof {
                let head = entries.take(i + 1);
                assert(head.last() == self.collected@[i as int]@);
                assert(head.drop_last() =~= entries.take(i as int));
                assert(with_entry(entries, entry@) =~= with_entry(entries.take(i as int), entry@)
                    + entries.skip(i as int));
            }
        }
        proof {
            let head = entries.take(i as int);
            if i > 0 {
                assert(head.last() == self.collected@[i - 1]@);
            }
            assert(with_entry(head, entry@) =~= head.push(entry@));
        }
        self.collected.insert(i, entry);
        proof {
            assert(self@.entries =~= entries.insert(i as int, entry@));
            assert(self@.entries =~= with_entry(entries, entry@));
        }
    }
}

/// Whether a collection holds operations of the library under test only, in order and each
/// of them once.
pub open spec fn is_well_formed(collection: Collection) -> bool {
    &&& is_sorted(collection.entries)
    &&& forall|i: int|
        0 <= i < collection.entries.len() ==> is_in_scope(
            (#[trigger] collection.entries[i]).place.file,
            collection.backslash_separates,
        )
}

/// No operation comes before itself.
pub proof fn lemma_entry_irreflexive(a: Entry)
    ensures
        !entry_before(a, a),
{
    lemma_text_irreflexive(name(a.from));
}

/// Two different operations come one before the other.
pub proof fn lemma_entry_total(a: Entry, b: Entry)
    ensures
        a == b || entry_before(a, b) || entry_before(b, a),
{
    lemma_text_total(a.place.file, b.place.file);
    lemma_text_total(name(a.from), name(b.from));
    if name(a.from) == name(b.from) {
        law_names_differ(a.from, b.from);
    }
}

/// The order of the operations is transitive.
pub proof fn lemma_entry_transitive(a: Entry, b: Entry, c: Entry)
    requires
        entry_before(a, b),
        entry_before(b, c),
    ensures
        entry_before(a, c),
{
    if a.place.file != b.place.file && b.place.file != c.place.file {
        lemma_text_transitive(a.place.file, b.place.file, c.place.file);
        lemma_text_irreflexive(a.place.file);
    }
    if text_before(name(a.from), name(b.from)) && text_before(name(b.from), name(c.from)) {
        lemma_text_transitive(name(a.from), name(b.from), name(c.from));
    }
    if a.place.file == c.place.file && a.place.file != b.place.file {
        lemma_text_transitive(a.place.file, b.place.file, c.place.file);
        lemma_text_irreflexive(a.place.file);
    }
}

/// Adding a new operation keeps the operations in order.
proof fn lemma_with_entry(entries: Seq<Entry>, entry: Entry)
    requires
        is_sorted(entries),
        !entries.contains(entry),
    ensures
        is_sorted(with_entry(entries, entry)),
        with_entry(entries, entry).len() == entries.len() + 1,
        forall|e: Entry| #[trigger]
            with_entry(entries, entry).contains(e) <==> entries.contains(e) || e == entry,
    decreases entries.len(),
{
    let result = with_entry(entries, entry);
    if entries.len() == 0 {
        assert(result[0] == entry);
    } else if entry_before(entries.last(), entry) {
        assert forall|i: int, j: int| 0 <= i < j < result.len() implies entry_before(
            #[trigger] result[i],
            #[trigger] result[j],
        ) by {
            if j == entries.len() && i < entries.len() - 1 {
                lemma_entry_transitive(entries[i], entries.last(), entry);
            }
        }
        assert(result[entries.len() as int] == entry);
        assert forall|e: Entry| entries.contains(e) implies #[trigger] result.contains(e) by {
            let i = choose|i: int| 0 <= i < entries.len() && entries[i] == e;
            assert(result[i] == e);
        }
    } else {
        let head = entries.drop_last();
        let last = entries.last();
        assert(entries[entries.len() - 1] == last);
        assert(last != entry);
        lemma_entry_total(last, entry);
        assert forall|e: Entry| #[trigger] entries.contains(e) <==> head.contains(e) || e
            == last by {
            if entries.contains(e) {
                let i = choose|i: int| 0 <= i < entries.len() && entries[i] == e;
                if i < head.len() {
                    assert(head[i] == e);
                }
            }
            if head.contains(e) {
                let i = choose|i: int| 0 <= i < head.len() && head[i] == e;
                assert(entries[i] == e);
            }
        }
        assert(!entries.contains(entry));
        lemma_with_entry(head, entry);
        let grown = with_entry(head, entry);
        assert(result == grown.push(last));
        assert forall|i: int, j: int| 0 <= i < j < result.len() implies entry_before(
            #[trigger] result[i],
            #[trigger] result[j],
        ) by {
            if j == grown.len() {
                assert(grown.contains(grown[i]));
                if grown[i] != entry {
                    assert(head.contains(grown[i]));
                    let k = choose|k: int| 0 <= k < head.len() && head[k] == grown[i];
                    assert(entry_before(entries[k], entries[entries.len() - 1]));
                }
            }
        }
        assert forall|e: Entry| #[trigger] result.contains(e) <==> entries.contains(e) || e
            == entry by {
            assert(grown.contains(e) <==> head.contains(e) || e == entry);
            assert(entries.contains(e) <==> head.contains(e) || e == last);
            if result.contains(e) {
                let i = choose|i: int| 0 <= i < result.len() && result[i] == e;
                if i < grown.len() {
                    assert(grown[i] == e);
                }
            }
            if grown.contains(e) {
                let i = choose|i: int| 0 <= i < grown.len() && grown[i] == e;
                assert(result[i] == e);
            }
            assert(result[grown.len() as int] == last);
        }
    }
}

/// Two sorted sequences of the same operations are equal.
proof fn lemma_sorted_is_unique(s: Seq<Entry>, t: Seq<Entry>)
    requires
        is_sorted(s),
        is_sorted(t),
        forall|e: Entry| s.contains(e) <==> t.contains(e),
    ensures
        s == t,
    decreases s.len(),
{
    if s.len() == 0 || t.len() == 0 {
        if s.len() > 0 {
            assert(s.contains(s[0]));
        }
        if t.len() > 0 {
            assert(t.contains(t[0]));
        }
        assert(s =~= t);
    } else {
        let a = s[s.len() - 1];
        let b = t[t.len() - 1];
        assert(s.contains(a) && t.contains(b));
        assert(t.contains(a) && s.contains(b));
        let i = choose|i: int| 0 <= i < t.len() && t[i] == a;
        let j = choose|j: int| 0 <= j < s.len() && s[j] == b;
        if a != b {
            assert(entry_before(t[i], t[t.len() - 1]));
            assert(entry_before(s[j], s[s.len() - 1]));
            lemma_entry_transitive(a, b, a);
            lemma_entry_irreflexive(a);
        }
        let s1 = s.drop_last();
        let t1 = t.drop_last();
        assert forall|e: Entry| s1.contains(e) <==> t1.contains(e) by {
            if s1.contains(e) {
                let k = choose|k: int| 0 <= k < s1.len() && s1[k] == e;
                assert(s[k] == e);
                lemma_entry_irreflexive(a);
                assert(entry_before(s[k], s[s.len() - 1]));
                assert(s.contains(e));
                let m = choose|m: int| 0 <= m < t.len() && t[m] == e;
                assert(t1[m] == e);
            }
            if t1.contains(e) {
                let k = choose|k: int| 0 <= k < t1.len() && t1[k] == e;
                assert(t[k] == e);
                lemma_entry_irreflexive(b);
                assert(entry_before(t[k], t[t.len() - 1]));
                assert(t.contains(e));
                let m = choose|m: int| 0 <= m < s.len() && s[m] == e;
                assert(s1[m] == e);
            }
        }
        lemma_sorted_is_unique(s1, t1);
        assert(s =~= s1.push(a));
        assert(t =~= t1.push(b));
    }
}

/// Collecting adds the executed operation if it belongs to the library under test, and
/// nothing else, and keeps the collection well-formed.
pub proof fn law_collecting_adds_the_operation(
    collection: Collection,
    place: Place,
    slot: Slot,
    order: MemoryOrder,
)
    requires
        is_well_formed(collection),
    ensures
        is_well_formed(collected_into(collection, place, slot, order)),
        forall|e: Entry| #[trigger]
            collected_into(collection, place, slot, order).entries.contains(e) <==> {
                ||| collection.entries.contains(e)
                ||| e == (Entry { place, slot, from: order }) && is_in_scope(
                    place.file,
                    collection.backslash_separates,
                )
            },
{
    let entry = Entry { place, slot, from: order };
    let after = collected_into(collection, place, slot, order);
    if is_in_scope(place.file, collection.backslash_separates) && !collection.entries.contains(
        entry,
    ) {
        lemma_with_entry(collection.entries, entry);
        assert forall|i: int| 0 <= i < after.entries.len() implies is_in_scope(
            (#[trigger] after.entries[i]).place.file,
            after.backslash_separates,
        ) by {
            let e = after.entries[i];
            assert(after.entries.contains(e));
            if e != entry {
                let k = choose|k: int|
                    0 <= k < collection.entries.len() && collection.entries[k] == e;
                assert(is_in_scope(
                    collection.entries[k].place.file,
                    collection.backslash_separates,
                ));
            }
        }
    }
}

/// The state of a collecting run once the operations were executed, in that order.
pub open spec fn all_collected_into(collection: Collection, executed: Seq<Entry>) -> Collection
    decreases executed.len(),
{
    if executed.len() == 0 {
        collection
    } else {
        let last = executed.last();
        collected_into(
            all_collected_into(collection, executed.drop_last()),
            last.place,
            last.slot,
            last.from,
        )
    }
}

/// A run collects the executed operations that belong to the library under test.
pub proof fn law_run_collects_the_executed_operations(
    collection: Collection,
    executed: Seq<Entry>,
)
    requires
        is_well_formed(collection),
    ensures
        is_well_formed(all_collected_into(collection, executed)),
        all_collected_into(collection, executed).backslash_separates
            == collection.backslash_separates,
        forall|e: Entry| #[trigger]
            all_collected_into(collection, executed).entries.contains(e) <==> {
                ||| collection.entries.contains(e)
                ||| executed.contains(e) && is_in_scope(
                    e.place.file,
                    collection.backslash_separates,
                )
            },
    decreases executed.len(),
{
    if executed.len() > 0 {
        let head = executed.drop_last();
        let last = executed.last();
        let before = all_collected_into(collection, head);
        law_run_collects_the_executed_operations(collection, head);
        law_collecting_adds_the_operation(before, last.place, last.slot, last.from);
        assert forall|e: Entry| #[trigger]
            all_collected_into(collection, executed).entries.contains(e) <==> {
                ||| collection.entries.contains(e)
                ||| executed.contains(e) && is_in_scope(
                    e.place.file,
                    collection.backslash_separates,
                )
            } by {
            assert(executed.contains(e) <==> head.contains(e) || e == last) by {
                if executed.contains(e) {
                    let i = choose|i: int| 0 <= i < executed.len() && executed[i] == e;
                    if i < head.len() {
                        assert(head[i] == e);
                    }
                }
                if head.contains(e) {
                    let i = choose|i: int| 0 <= i < head.len() && head[i] == e;
                    assert(executed[i] == e);
                }
                assert(executed[executed.len() - 1] == last);
            }
            assert(before.entries.contains(e) <==> {
                ||| collection.entries.contains(e)
                ||| head.contains(e) && is_in_scope(e.place.file, collection.backslash_separates)
            });
        }
    }
}

/// What is collected does not depend on the order of execution, nor on how often an operation
/// is executed: two runs that execute the same operations collect the same, in the same order.
pub proof fn law_collection_ignores_execution_order(
    collection: Collection,
    executed: Seq<Entry>,
    other: Seq<Entry>,
)
    requires
        is_well_formed(collection),
        forall|e: Entry| executed.contains(e) <==> other.contains(e),
    ensures
        all_collected_into(collection, executed).entries == all_collected_into(
            collection,
            other,
        ).entries,
{
    law_run_collects_the_executed_operations(collection, executed);
    law_run_collects_the_executed_operations(collection, other);
    let a = all_collected_into(collection, executed).entries;
    let b = all_collected_into(collection, other).entries;
    assert forall|e: Entry| a.contains(e) <==> b.contains(e) by {
        assert(executed.contains(e) <==> other.contains(e));
    }
    lemma_sorted_is_unique(a, b);
}

/// Executing an operation again collects nothing more.
pub proof fn law_collecting_again_changes_nothing(
    collection: Collection,
    place: Place,
    slot: Slot,
    order: MemoryOrder,
)
    requires
        is_well_formed(collection),
    ensures
        collected_into(collected_into(collection, place, slot, order), place, slot, order)
            == collected_into(collection, place, slot, order),
{
    law_collecting_adds_the_operation(collection, place, slot, order);
    let after = collected_into(collection, place, slot, order);
    assert(after.entries.contains(Entry { place, slot, from: order }) || !is_in_scope(
        place.file,
        collection.backslash_separates,
    ));
}

/// A script that is up to date stays so until a new operation is collected, and collecting a
/// new operation makes it outdated.
pub proof fn law_script_is_outdated_by_new_operations(
    collection: Collection,
    place: Place,
    slot: Slot,
    order: MemoryOrder,
)
    requires
        is_well_formed(collection),
    ensures
        collected_into(collection, place, slot, order).outdated <==> collection.outdated
            || collected_into(collection, place, slot, order).entries != collection.entries,
{
    law_collecting_adds_the_operation(collection, place, slot, order);
    let entry = Entry { place, slot, from: order };
    if is_in_scope(place.file, collection.backslash_separates) && !collection.entries.contains(
        entry,
    ) {
        assert(collected_into(collection, place, slot, order).entries.contains(entry));
    }
}

/// An operation belongs to the library under test exactly when its file is `src`, or what
/// follows `src` in it is a separator: a `/`, or a `\` where it is one.
pub proof fn law_scope_is_the_source_directory(file: Seq<char>, backslash_separates: bool)
    ensures
        is_in_scope(file, backslash_separates) <==> {
            ||| file == "src"@
            ||| "src/"@.is_prefix_of(file)
            ||| backslash_separates && "src\\"@.is_prefix_of(file)
        },
{
    reveal_strlit("src");
    reveal_strlit("src/");
    reveal_strlit("src\\");
    assert(SCOPE@ == "src"@);
    assert("src/"@ =~= "src"@.push('/'));
    assert("src\\"@ =~= "src"@.push('\\'));
    if SCOPE@.is_prefix_of(file) {
        if file.len() > 3 {
            assert(file.subrange(0, 4) =~= "src"@.push(file[3]));
        } else {
            assert(file =~= "src"@);
        }
    }
    if "src/"@.is_prefix_of(file) {
        assert(file.subrange(0, 4)[3] == file[3]);
        assert(file.subrange(0, 3) =~= file.subrange(0, 4).subrange(0, 3));
        assert("src/"@.subrange(0, 3) =~= "src"@);
    }
    if "src\\"@.is_prefix_of(file) {
        assert(file.subrange(0, 4)[3] == file[3]);
        assert(file.subrange(0, 3) =~= file.subrange(0, 4).subrange(0, 3));
        assert("src\\"@.subrange(0, 3) =~= "src"@);
    }
    if file == "src"@ {
        assert(file.subrange(0, 3) =~= file);
    }
}

/// An operation comes before another one by the first field in which they differ: the file, the
/// line, the column, the slot, and the name of the ordering.
pub proof fn law_operations_are_ordered_by_their_fields(a: Entry, b: Entry)
    ensures
        text_before(a.place.file, b.place.file) ==> entry_before(a, b),
        a.place.file == b.place.file && a.place.line < b.place.line ==> entry_before(a, b),
        a.place.file == b.place.file && a.place.line == b.place.line && a.place.column
            < b.place.column ==> entry_before(a, b),
        a.place == b.place && (a.slot is Single && !(b.slot is Single) || a.slot is Success
            && b.slot is Failure) ==> entry_before(a, b),
        a.place == b.place && a.slot == b.slot && text_before(name(a.from), name(b.from))
            ==> entry_before(a, b),
        entry_before(a, b) ==> !entry_before(b, a),
        a == b ==> !entry_before(a, b),
{
    lemma_text_irreflexive(a.place.file);
    if entry_before(a, b) && entry_before(b, a) {
        lemma_entry_transitive(a, b, a);
        lemma_entry_irreflexive(a);
    }
    lemma_entry_irreflexive(a);
}

/// What is collected of an operation are its place, its slot and its ordering.
pub proof fn law_collected_operation_is_its_fields(collected: Seq<Collected>, i: int)
    requires
        0 <= i < collected.len(),
    ensures
        entries_of(collected).len() == collected.len(),
        entries_of(collected)[i].place.file == collected[i].file@,
        entries_of(collected)[i].place.line == collected[i].line,
        entries_of(collected)[i].place.column == collected[i].column,
        entries_of(collected)[i].slot == collected[i].slot,
        entries_of(collected)[i].from == collected[i].from,
{
}

} // verus!
