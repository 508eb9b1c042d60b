//! The script that checks the collected downgrades.

use vstd::prelude::*;

use crate::downgrade::collect::{entries_of, Collected, Entry};
use crate::downgrade::slot::slot_field;
use crate::order::{downgrades_of, name, ordering_name, weaker, MemoryOrder};
use crate::rt::{place_text, push_place};
use crate::text::{
    all_digits, byte_len, byte_length, decimal, lemma_decimal, number, push_decimal,
};

verus! {

pub const SCRIPT_HEADER: &'static str = r#"#!/usr/bin/env bash
# Generated by loom during a `LOOM_DOWNGRADE=collect` run, see `loom::downgrade`.
#
# Runs the command given as arguments once per downgrade of the memory orderings executed by
# the collecting run, e.g.
#
#     ./loom_downgrade.sh cargo test --release
#
# Each downgrade is printed as the `LOOM_DOWNGRADE` value selecting it, so a single run
# reproduces it, then marked once the command is done: ✓ if it failed, meaning the downgrade
# was caught, ✗ if it passed, meaning the ordering may be unnecessary. The exit status is
# non-zero if any downgrade was not caught.
set -uo pipefail

"#;

pub const SCRIPT_BODY: &'static str = r#"

if (($# == 0)); then
    echo "usage: $0 <command> [<args>...]" >&2
    exit 2
fi

uncaught=0
for downgrade in "${downgrades[@]}"; do
    # Printed before the command runs, which takes a while, so the downgrade being checked is
    # visible while it is checked, and marked once it is done.
    printf '%-*s ' "$width" "$downgrade"
    LOOM_DOWNGRADE="$downgrade" "$@" > /dev/null 2>&1
    status=$?
    # A panic from a downgraded ordering is caught and reported as a test failure, so the only
    # expected outcomes are libtest's 101 and a clean pass. Anything else (e.g. a stack
    # overflow from a divergent loom execution) is a real problem, not a "catch": abort rather
    # than silently reading it as coverage.
    case $status in
    0) echo '✗' && uncaught=1 ;;
    101) echo '✓' ;;
    *) echo "the command crashed (exit $status)" && exit 1 ;;
    esac
done

exit $uncaught
"#;

/// Whether a character keeps a meaning of its own between the double quotes of a shell.
pub open spec fn is_special(c: char) -> bool {
    c == '\\' || c == '"' || c == '$' || c == '`'
}

/// `s` with a `\` before each special character.
pub open spec fn escaped(s: Seq<char>) -> Seq<char>
    decreases s.len(),
{
    if s.len() == 0 {
        seq![]
    } else if is_special(s.last()) {
        escaped(s.drop_last()).push('\\').push(s.last())
    } else {
        escaped(s.drop_last()).push(s.last())
    }
}

/// The line of the script that sets `RUSTFLAGS`, or says that it was not set.
pub open spec fn rustflags_line(rustflags: Option<Seq<char>>) -> Seq<char> {
    match rustflags {
        Some(flags) => "export RUSTFLAGS=\"${RUSTFLAGS:-"@ + escaped(flags) + "}\"\n"@,
        None => "# RUSTFLAGS was not set in the collecting run.\n"@,
    }
}

/// A downgrade as the `LOOM_DOWNGRADE` value selecting it.
pub open spec fn downgrade_text(entry: Entry, to: MemoryOrder) -> Seq<char> {
    place_text(entry.place) + ":"@ + slot_field(entry.slot) + name(entry.from) + ":"@ + name(to)
}

/// The possible downgrades of an operation.
pub open spec fn entry_downgrades(entry: Entry) -> Seq<Seq<char>> {
    downgrades_of(entry.from).map_values(|to: MemoryOrder| downgrade_text(entry, to))
}

/// The possible downgrades of the collected operations, in order.
pub open spec fn all_downgrades(entries: Seq<Entry>) -> Seq<Seq<char>>
    decreases entries.len(),
{
    if entries.len() == 0 {
        seq![]
    } else {
        all_downgrades(entries.drop_last()) + entry_downgrades(entries.last())
    }
}

/// The number of bytes of the longest text.
pub open spec fn width(texts: Seq<Seq<char>>) -> nat
    decreases texts.len(),
{
    if texts.len() == 0 {
        0
    } else if byte_length(texts.last()) > width(texts.drop_last()) {
        byte_length(texts.last())
    } else {
        width(texts.drop_last())
    }
}

/// A text as the line of a shell array.
pub open spec fn array_line(text: Seq<char>) -> Seq<char> {
    "    '"@ + text + "'\n"@
}

/// The texts as the lines of a shell array.
pub open spec fn array_lines(texts: Seq<Seq<char>>) -> Seq<char>
    decreases texts.len(),
{
    if texts.len() == 0 {
        seq![]
    } else {
        array_lines(texts.drop_last()) + array_line(texts.last())
    }
}

/// The whole script.
pub open spec fn script(rustflags: Option<Seq<char>>, entries: Seq<Entry>) -> Seq<char> {
    let downgrades = all_downgrades(entries);
    SCRIPT_HEADER@ + rustflags_line(rustflags) + "\nwidth="@ + decimal(width(downgrades))
        + "\n\ndowngrades=(\n"@ + array_lines(downgrades) + ")\n"@ + SCRIPT_BODY@
}

/// The contents of an optional string.
pub open spec fn text_of(s: Option<&str>) -> Option<Seq<char>> {
    match s {
        Some(s) => Some(s@),
        None => None,
    }
}

/// The contents of the strings.
pub open spec fn texts_of(strings: Seq<String>) -> Seq<Seq<char>> {
    strings.map_values(|s: String| s@)
}

/// Appends `s`, escaped.
fn push_escaped(out: &mut String, s: &str)
    ensures
        final(out)@ == old(out)@ + escaped(s@),
{
    proof {
        assert(old(out)@ + escaped(s@.take(0)) =~= old(out)@);
    }
    for c in it: s.chars()
        invariant
            it.seq() == s@,
            out@ == old(out)@ + escaped(s@.take(it.index() as int)),
    {
        proof {
            let head = s@.take(it.index() + 1);
            assert(head.drop_last() =~= s@.take(it.index() as int));
            assert(head.last() == c);
        }
        if c == '\\' || c == '"' || c == '$' || c == '`' {
            out.push('\\');
        }
        out.push(c);
        proof {
            assert(out@ =~= old(out)@ + escaped(s@.take(it.index() + 1)));
        }
    }
    proof {
        assert(s@.take(s@.len() as int) =~= s@);
    }
}

/// Appends the line that sets `RUSTFLAGS`.
///
/// Cargo fingerprints `RUSTFLAGS` as a raw string, so a different value would rebuild the
/// whole dependency graph. Running a model requires it (`--cfg loom`), so it should be set,
/// but it may come from a cargo configuration instead of the environment.
///
/// The value of the collecting run is only a default, so the caller can still choose its own,
/// but an empty value is overwritten: it cannot be the deliberate one.
fn push_rustflags(out: &mut String, rustflags: Option<&str>)
    ensures
        final(out)@ == old(out)@ + rustflags_line(text_of(rustflags)),
{
    match rustflags {
        Some(flags) => {
            out.append("export RUSTFLAGS=\"${RUSTFLAGS:-");
            push_escaped(out, flags);
            out.append("}\"\n");
        },
        None => {
            out.append("# RUSTFLAGS was not set in the collecting run.\n");
        },
    }
    proof {
        assert(out@ =~= old(out)@ + rustflags_line(text_of(rustflags)));
    }
}

/// A downgrade as the `LOOM_DOWNGRADE` value selecting it.
pub fn downgrade_value(entry: &Collected, to: MemoryOrder) -> (value: String)
    ensures
        value@ == downgrade_text(entry@, to),
{
    let mut value = String::new();
    push_place(&mut value, entry.file, entry.line, entry.column);
    value.append(":");
    value.append(entry.slot.field());
    value.append(ordering_name(entry.from));
    value.append(":");
    value.append(ordering_name(to));
    proof {
        assert(value@ =~= downgrade_text(entry@, to));
    }
    value
}

/// The possible downgrades of the collected operations, in order.
pub fn downgrade_values(collected: &Vec<Collected>) -> (values: Vec<String>)
    ensures
        texts_of(values@) == all_downgrades(entries_of(collected@)),
{
    let ghost entries = entries_of(collected@);
    let mut values: Vec<String> = Vec::new();
    let mut i: usize = 0;
    proof {
        assert(texts_of(values@) =~= all_downgrades(entries.take(0)));
    }
    while i < collected.len()
        invariant
            i <= collected.len(),
            entries == entries_of(collected@),
            texts_of(values@) == all_downgrades(entries.take(i as int)),
        decreases collected.len() - i,
    {
        let entry: &Collected = &collected[i];
        let orders: &'static [MemoryOrder] = weaker(entry.from);
        let ghost before = texts_of(values@);
        let mut j: usize = 0;
        while j < orders.len()
            invariant
                j <= orders.len(),
                orders@ == downgrades_of(entry@.from),
                texts_of(values@) == before + entry_downgrades(entry@).take(j as int),
            decreases orders.len() - j,
        {
            let value = downgrade_value(entry, orders[j]);
            let ghost text = value@;
            let ghost earlier = values@;
            values.push(value);
            proof {
                assert(texts_of(values@) =~= texts_of(earlier).push(text));
                assert(entry_downgrades(entry@)[j as int] == text);
                assert(texts_of(values@) =~= before + entry_downgrades(entry@).take(j + 1));
            }
            j = j + 1;
        }
        proof {
            assert(entry_downgrades(entry@).take(j as int) =~= entry_downgrades(entry@));
            assert(entries.take(i + 1).drop_last() =~= entries.take(i as int));
            assert(entries.take(i + 1).last() == entry@);
        }
        i = i + 1;
    }
    proof {
        assert(entries.take(i as int) =~= entries);
    }
    values
}

/// The number of bytes of the longest string.
fn longest(values: &Vec<String>) -> (n: usize)
    ensures
        n == width(texts_of(values@)),
{
    let ghost texts = texts_of(values@);
    let mut n: usize = 0;
    let mut i: usize = 0;
    while i < values.len()
        invariant
            i <= values.len(),
            texts == texts_of(values@),
            n == width(texts.take(i as int)),
        decreases values.len() - i,
    {
        let len: usize = byte_len(values[i].as_str());
        proof {
            assert(texts.take(i + 1).drop_last() =~= texts.take(i as int));
            assert(texts.take(i + 1).last() == values@[i as int]@);
        }
        if len > n {
            n = len;
        }
        i = i + 1;
    }
    proof {
        assert(texts.take(i as int) =~= texts);
    }
    n
}

/// Appends the strings as the lines of a shell array.
fn push_array_lines(out: &mut String, values: &Vec<String>)
    ensures
        final(out)@ == old(out)@ + array_lines(texts_of(values@)),
{
    let ghost texts = texts_of(values@);
    let mut i: usize = 0;
    proof {
        assert(old(out)@ + array_lines(texts.take(0)) =~= old(out)@);
    }
    while i < values.len()
        invariant
            i <= values.len(),
            texts == texts_of(values@),
            out@ == old(out)@ + array_lines(texts.take(i as int)),
        decreases values.len() - i,
    {
        out.append("    '");
        out.append(values[i].as_str());
        out.append("'\n");
        proof {
            assert(texts.take(i + 1).drop_last() =~= texts.take(i as int));
            assert(texts.take(i + 1).last() == values@[i as int]@);
            assert(out@ =~= old(out)@ + array_lines(texts.take(i + 1)));
        }
        i = i + 1;
    }
    proof {
        assert(texts.take(i as int) =~= texts);
    }
}

/// Writes the whole script, rather than what was collected since the last time: it keeps the
/// downgrades sorted whatever the execution order, and the script exhaustive even if the run
/// is interrupted. `rustflags` is the `RUSTFLAGS` of the collecting run, if it is set.
pub fn write_script(rustflags: Option<&str>, collected: &Vec<Collected>) -> (text: String)
    ensures
        text@ == script(text_of(rustflags), entries_of(collected@)),
{
    let mut text = String::new();
    text.append(SCRIPT_HEADER);
    push_rustflags(&mut text, rustflags);
    let downgrades = downgrade_values(collected);
    // Width of the downgrade column, so the marks are aligned whatever the line numbers.
    text.append("\nwidth=");
    push_decimal(&mut text, longest(&downgrades) as u64);
    text.append("\n\ndowngrades=(\n");
    push_array_lines(&mut text, &downgrades);
    text.append(")\n");
    text.append(SCRIPT_BODY);
    proof {
        assert(text@ =~= script(text_of(rustflags), entries_of(collected@)));
    }
    text
}

/// A character as [`escaped`] writes it.
pub open spec fn escaped_char(c: char) -> Seq<char> {
    if is_special(c) {
        seq!['\\', c]
    } else {
        seq![c]
    }
}

/// What a shell reads as the word of `"${RUSTFLAGS:-<word>}"`, `None` if it would expand
/// something, or if the word would end early. A `\` is removed before a special character and
/// before a `}`, and together with the end of a line.
pub open spec fn default_word(s: Seq<char>) -> Option<Seq<char>>
    decreases s.len(),
{
    if s.len() == 0 {
        Some(seq![])
    } else if s[0] == '\\' {
        if s.len() == 1 {
            None
        } else {
            match default_word(s.skip(2)) {
                Some(rest) => if is_special(s[1]) || s[1] == '}' {
                    Some(seq![s[1]] + rest)
                } else if s[1] == '\n' {
                    Some(rest)
                } else {
                    Some(seq![s[0], s[1]] + rest)
                },
                None => None,
            }
        }
    } else if is_special(s[0]) || s[0] == '}' {
        None
    } else {
        match default_word(s.skip(1)) {
            Some(rest) => Some(seq![s[0]] + rest),
            None => None,
        }
    }
}

/// Escaping goes character by character.
proof fn lemma_escaped_first(s: Seq<char>)
    requires
        s.len() > 0,
    ensures
        escaped(s) == escaped_char(s[0]) + escaped(s.skip(1)),
    decreases s.len(),
{
    if s.len() == 1 {
        assert(s.skip(1) =~= Seq::<char>::empty());
        assert(s.drop_last() =~= Seq::<char>::empty());
        assert(escaped(s.drop_last()) =~= Seq::<char>::empty());
        assert(escaped(s) =~= escaped_char(s[0]) + escaped(s.skip(1)));
    } else {
        lemma_escaped_first(s.drop_last());
        assert(s.drop_last().skip(1) =~= s.skip(1).drop_last());
        assert(escaped(s) =~= escaped_char(s[0]) + escaped(s.skip(1)));
    }
}

/// In the line that sets `RUSTFLAGS`, the escaped value is read as the value itself, unless it
/// contains a `}`, which is not escaped and ends the word early.
pub proof fn law_escaped_reads_back(s: Seq<char>)
    ensures
        default_word(escaped(s)) == if s.contains('}') {
            None
        } else {
            Some(s)
        },
    decreases s.len(),
{
    if s.len() > 0 {
        let rest = s.skip(1);
        let text = escaped(s);
        lemma_escaped_first(s);
        law_escaped_reads_back(rest);
        if is_special(s[0]) {
            assert(text.skip(2) =~= escaped(rest));
        } else {
            assert(text.skip(1) =~= escaped(rest));
        }
        assert(seq![s[0]] + rest =~= s);
        assert(s.contains('}') <==> s[0] == '}' || rest.contains('}')) by {
            if s.contains('}') {
                let i = choose|i: int| 0 <= i < s.len() && s[i] == '}';
                if i > 0 {
                    assert(rest[i - 1] == '}');
                }
            }
            if rest.contains('}') {
                let i = choose|i: int| 0 <= i < rest.len() && rest[i] == '}';
                assert(s[i + 1] == '}');
            }
        }
    } else {
        assert(s =~= Seq::<char>::empty());
    }
}

/// Whether a character only separates the items of a shell array.
pub open spec fn is_blank(c: char) -> bool {
    c == ' ' || c == '\t' || c == '\n'
}

/// The items that a shell reads between the parentheses of an array, each of them between two
/// single quotes. It is `None` for any other way to write an item, or to join it with the next.
pub open spec fn array_items(s: Seq<char>) -> Option<Seq<Seq<char>>>
    decreases s.len(),
{
    if s.len() == 0 {
        Some(seq![])
    } else if is_blank(s[0]) {
        array_items(s.skip(1))
    } else if s[0] != '\'' {
        None
    } else {
        match s.skip(1).index_of_first('\'') {
            Some(i) => if 0 <= i < s.len() - 1 && (i + 2 == s.len() || is_blank(s[i + 2])) {
                match array_items(s.skip(i + 2)) {
                    Some(items) => Some(seq![s.subrange(1, i + 1)] + items),
                    None => None,
                }
            } else {
                None
            },
            None => None,
        }
    }
}

/// The lines go item by item.
proof fn lemma_array_lines_first(texts: Seq<Seq<char>>)
    requires
        texts.len() > 0,
    ensures
        array_lines(texts) == array_line(texts[0]) + array_lines(texts.skip(1)),
    decreases texts.len(),
{
    let head = texts.drop_last();
    if texts.len() == 1 {
        assert(head =~= Seq::<Seq<char>>::empty());
        assert(texts.skip(1) =~= Seq::<Seq<char>>::empty());
    } else {
        lemma_array_lines_first(head);
        assert(head.skip(1) =~= texts.skip(1).drop_last());
    }
    assert(array_lines(texts) =~= array_line(texts[0]) + array_lines(texts.skip(1)));
}

/// A quoted text at the front is the first item, if a blank follows it.
proof fn lemma_quoted_item(text: Seq<char>, s: Seq<char>)
    requires
        !text.contains('\''),
        s.len() > 0,
        is_blank(s[0]),
    ensures
        array_items(seq!['\''] + text + seq!['\''] + s) == match array_items(s) {
            Some(items) => Some(seq![text] + items),
            None => None,
        },
{
    let quoted = seq!['\''] + text + seq!['\''] + s;
    let n = text.len() as int;
    let after = quoted.skip(1);
    assert(after[n] == '\'');
    assert forall|j: int| 0 <= j < n implies after[j] != '\'' by {
        assert(after[j] == text[j]);
    }
    assert(after.contains('\''));
    after.index_of_first_ensures('\'');
    assert(after.index_of_first('\'') == Some(n));
    assert(quoted.subrange(1, n + 1) =~= text);
    assert(quoted.skip(n + 2) =~= s);
}

/// The line of an item is read as that item.
proof fn lemma_array_line(text: Seq<char>, rest: Seq<char>)
    requires
        !text.contains('\''),
    ensures
        array_items(array_line(text) + rest) == match array_items(rest) {
            Some(items) => Some(seq![text] + items),
            None => None,
        },
{
    reveal_strlit("    '");
    reveal_strlit("'\n");
    let s0 = array_line(text) + rest;
    let s1 = s0.skip(1);
    let s2 = s1.skip(1);
    let s3 = s2.skip(1);
    let end = seq!['\n'] + rest;
    assert(array_items(s0) == array_items(s1));
    assert(array_items(s1) == array_items(s2));
    assert(array_items(s2) == array_items(s3));
    assert(array_items(s3) == array_items(s3.skip(1)));
    assert(s3.skip(1) =~= seq!['\''] + text + seq!['\''] + end);
    lemma_quoted_item(text, end);
    assert(end.skip(1) =~= rest);
    assert(array_items(end) == array_items(rest));
}

/// The array is read as the listed values, if they contain no single quote.
pub proof fn law_array_reads_back(texts: Seq<Seq<char>>)
    requires
        forall|i: int| 0 <= i < texts.len() ==> !(#[trigger] texts[i]).contains('\''),
    ensures
        array_items(array_lines(texts)) == Some(texts),
    decreases texts.len(),
{
    if texts.len() == 0 {
        assert(texts =~= Seq::<Seq<char>>::empty());
    } else {
        let rest = texts.skip(1);
        assert forall|i: int| 0 <= i < rest.len() implies !(#[trigger] rest[i]).contains('\'') by {
            assert(rest[i] == texts[i + 1]);
        }
        law_array_reads_back(rest);
        lemma_array_lines_first(texts);
        lemma_array_line(texts[0], array_lines(rest));
        assert(seq![texts[0]] + rest =~= texts);
    }
}

/// The width is that of the longest text: all of them fit, and one of them fills it.
pub proof fn law_width_is_that_of_the_longest(texts: Seq<Seq<char>>)
    ensures
        forall|i: int| 0 <= i < texts.len() ==> byte_length(#[trigger] texts[i]) <= width(texts),
        texts.len() > 0 ==> exists|i: int|
            0 <= i < texts.len() && byte_length(#[trigger] texts[i]) == width(texts),
        texts.len() == 0 ==> width(texts) == 0,
    decreases texts.len(),
{
    if texts.len() > 0 {
        let head = texts.drop_last();
        law_width_is_that_of_the_longest(head);
        assert forall|i: int| 0 <= i < texts.len() implies byte_length(#[trigger] texts[i])
            <= width(texts) by {
            if i < head.len() {
                assert(texts[i] == head[i]);
            }
        }
        if byte_length(texts.last()) > width(head) || head.len() == 0 {
            assert(byte_length(texts[texts.len() - 1]) == width(texts));
        } else {
            let i = choose|i: int|
                0 <= i < head.len() && byte_length(#[trigger] head[i]) == width(head);
            assert(byte_length(texts[i]) == width(texts));
        }
    }
}

/// A text is escaped character by character: a `\`, a `"`, a `$` and a `` ` `` get a `\` before
/// them, and every other character stays as it is.
pub proof fn law_escaped_goes_character_by_character(a: Seq<char>, b: Seq<char>, c: char)
    ensures
        escaped(Seq::empty()).len() == 0,
        escaped(a + b) == escaped(a) + escaped(b),
        escaped(seq![c]) == if c == '\\' || c == '"' || c == '$' || c == '`' {
            seq!['\\', c]
        } else {
            seq![c]
        },
    decreases b.len(),
{
    assert(seq![c].drop_last() =~= Seq::<char>::empty());
    assert(escaped(seq![c].drop_last()) =~= Seq::<char>::empty());
    assert(escaped(seq![c]) =~= if c == '\\' || c == '"' || c == '$' || c == '`' {
        seq!['\\', c]
    } else {
        seq![c]
    });
    if b.len() == 0 {
        assert(a + b =~= a);
        assert(escaped(a) + escaped(b) =~= escaped(a));
    } else {
        law_escaped_goes_character_by_character(a, b.drop_last(), c);
        assert((a + b).drop_last() =~= a + b.drop_last());
        assert(escaped(a + b) =~= escaped(a) + escaped(b));
    }
}

/// The array has one line per text, in their order: the text between single quotes.
pub proof fn law_array_has_a_line_per_text(texts: Seq<Seq<char>>)
    ensures
        array_lines(texts) == texts.map_values(
            |text: Seq<char>| "    '"@ + text + "'\n"@,
        ).flatten(),
    decreases texts.len(),
{
    let line = |text: Seq<char>| "    '"@ + text + "'\n"@;
    let lines = texts.map_values(line);
    if texts.len() > 0 {
        let head = texts.drop_last();
        law_array_has_a_line_per_text(head);
        assert(lines =~= head.map_values(line).push(line(texts.last())));
        head.map_values(line).lemma_flatten_push(line(texts.last()));
    } else {
        assert(lines.flatten() =~= Seq::<char>::empty());
    }
}

/// The downgrades are listed operation by operation, in the order of the operations, and those
/// of one operation in the order in which they are tried.
pub proof fn law_downgrades_are_listed_in_order(entries: Seq<Entry>)
    ensures
        all_downgrades(entries) == entries.map_values(
            |entry: Entry|
                downgrades_of(entry.from).map_values(
                    |to: MemoryOrder| downgrade_text(entry, to),
                ),
        ).flatten(),
    decreases entries.len(),
{
    let listed = |entry: Entry|
        downgrades_of(entry.from).map_values(|to: MemoryOrder| downgrade_text(entry, to));
    let all = entries.map_values(listed);
    if entries.len() > 0 {
        let head = entries.drop_last();
        law_downgrades_are_listed_in_order(head);
        assert(all =~= head.map_values(listed).push(listed(entries.last())));
        head.map_values(listed).lemma_flatten_push(listed(entries.last()));
    } else {
        assert(all.flatten() =~= Seq::<Seq<char>>::empty());
    }
}

/// Whether a text consists of what every script consists of, around the line on `RUSTFLAGS`, the
/// digits of the width, and the lines of the array.
pub open spec fn has_parts(
    text: Seq<char>,
    flags: Seq<char>,
    digits: Seq<char>,
    array: Seq<char>,
) -> bool {
    let start = SCRIPT_HEADER@ + flags + "\nwidth="@ + digits + "\n\ndowngrades=(\n"@;
    text == start + array + (")\n"@ + SCRIPT_BODY@)
}

/// Whether a line sets `RUSTFLAGS` to those flags, unless they contain a `}`, or says that there
/// are none.
pub open spec fn sets_flags(line: Seq<char>, rustflags: Option<&str>) -> bool {
    match rustflags {
        Some(flags) => exists|word: Seq<char>|
            line == "export RUSTFLAGS=\"${RUSTFLAGS:-"@ + word + "}\"\n"@ && word == escaped(
                flags@,
            ) && (!flags@.contains('}') ==> #[trigger] default_word(word) == Some(flags@)),
        None => line == "# RUSTFLAGS was not set in the collecting run.\n"@,
    }
}

/// Whether a number is the width of the longest text, which is 0 if there is none.
pub open spec fn is_width(n: nat, texts: Seq<Seq<char>>) -> bool {
    &&& forall|i: int| 0 <= i < texts.len() ==> byte_length(#[trigger] texts[i]) <= n
    &&& texts.len() == 0 ==> n == 0
    &&& texts.len() > 0 ==> exists|i: int|
        0 <= i < texts.len() && byte_length(#[trigger] texts[i]) == n
}

/// Whatever is collected, and whatever the flags are, the script starts with its header, sets
/// the flags and the width of the longest downgrade, lists the downgrades of the collected
/// operations as an array that a shell reads as them, and ends with the loop that runs the
/// command with each of them.
pub proof fn law_script_lists_the_downgrades_and_runs_them(
    rustflags: Option<&str>,
    collected: Seq<Collected>,
)
    ensures
        ({
            let text = script(text_of(rustflags), entries_of(collected));
            let listed = all_downgrades(entries_of(collected));
            &&& SCRIPT_HEADER@.is_prefix_of(text)
            &&& SCRIPT_BODY@.is_suffix_of(text)
            &&& exists|flags: Seq<char>, digits: Seq<char>, array: Seq<char>|
                {
                    &&& #[trigger] has_parts(text, flags, digits, array)
                    &&& sets_flags(flags, rustflags)
                    &&& all_digits(digits) && is_width(number(digits), listed)
                    &&& digits == decimal(number(digits))
                    &&& array == listed.map_values(
                        |value: Seq<char>| "    '"@ + value + "'\n"@,
                    ).flatten()
                    &&& (forall|i: int|
                        0 <= i < listed.len() ==> !(#[trigger] listed[i]).contains('\''))
                        ==> array_items(array) == Some(listed)
                }
        }),
{
    let text = script(text_of(rustflags), entries_of(collected));
    let listed = all_downgrades(entries_of(collected));
    let flags = rustflags_line(text_of(rustflags));
    let digits = decimal(width(listed));
    let array = array_lines(listed);
    let start = SCRIPT_HEADER@ + flags + "\nwidth="@ + digits + "\n\ndowngrades=(\n"@;
    assert(text =~= start + array + (")\n"@ + SCRIPT_BODY@));
    assert(has_parts(text, flags, digits, array));
    assert(text.subrange(0, SCRIPT_HEADER@.len() as int) =~= SCRIPT_HEADER@);
    assert(text.subrange(text.len() - SCRIPT_BODY@.len(), text.len() as int) =~= SCRIPT_BODY@);
    if let Some(f) = rustflags {
        law_escaped_reads_back(f@);
        assert(flags == "export RUSTFLAGS=\"${RUSTFLAGS:-"@ + escaped(f@) + "}\"\n"@);
        assert(!f@.contains('}') ==> default_word(escaped(f@)) == Some(f@));
    }
    lemma_decimal(width(listed));
    law_width_is_that_of_the_longest(listed);
    law_array_has_a_line_per_text(listed);
    if forall|i: int| 0 <= i < listed.len() ==> !(#[trigger] listed[i]).contains('\'') {
        law_array_reads_back(listed);
    }
}

} // verus!
