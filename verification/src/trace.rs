//! Readable tracing of the operations performed by a model.
//!
//! Setting the `LOOM_TRACE` environment variable makes every atomic operation (and every
//! event that the tested code traces) be written as a single line into a `loom.trace` file,
//! in the current directory:
//!
//! ```text
//! ============================== iteration 42 ==============================
//! ================================ thread 0 ================================
//! src/lib.rs:393:36: store(3, SeqCst)
//! ================================ thread 1 ================================
//! src/lib.rs:506:36: fence(SeqCst)
//! src/lib.rs:506:36: load(SeqCst) -> 3
//! ```
//!
//! The file is truncated at the beginning of each iteration, so it only ever contains the
//! last one — which is the failing one when the model panics.
//!
//! Lines are prefixed by the location of the operation, and *not* by the thread performing
//! it: instead, a separator line is written each time the traced thread changes. Because it
//! is only written when the *traced* thread changes, a thread switch happening between two
//! untraced operations doesn't show up.

use vstd::prelude::*;

use crate::rt::{place_text, push_place, Location, Place};
use crate::text::{
    all_digits, byte_len, byte_length, decimal, is_one_line, lemma_byte_length_ascii,
    lemma_byte_length_concat, lemma_decimal, lemma_decimal_is_one_line, lemma_one_line_concat,
    number, push_decimal, push_repeated, repeated,
};

verus! {

/// The file that the trace is written to.
pub const PATH: &'static str = "loom.trace";

/// The environment variable that enables tracing.
pub const VAR: &'static str = "LOOM_TRACE";

/// Width of the separator lines, chosen to fit in a terminal.
pub const WIDTH: usize = 74;

/// The number of `=` of a separator line with that label.
pub open spec fn padding(label: Seq<char>) -> nat {
    let labelled = byte_length(" "@ + label + " "@);
    if labelled < WIDTH {
        (WIDTH - labelled) as nat
    } else {
        0
    }
}

/// A separator line, i.e. its label in the middle of a bar.
pub open spec fn separator_line(label: Seq<char>) -> Seq<char> {
    let n = padding(label);
    repeated('=', n / 2) + (" "@ + label + " "@) + repeated('=', (n - n / 2) as nat) + "\n"@
}

/// The label of the separator line of an iteration.
pub open spec fn iteration_label(iteration: nat) -> Seq<char> {
    "iteration "@ + decimal(iteration)
}

/// The label of the separator line of a thread.
pub open spec fn thread_label(thread: Option<usize>) -> Seq<char> {
    match thread {
        Some(thread) => "thread "@ + decimal(thread as nat),
        None => "unknown thread"@,
    }
}

/// A traced operation or event.
pub struct Line {
    /// The thread performing it, unless it is not known.
    pub thread: Option<usize>,
    pub place: Place,
    pub text: Seq<char>,
}

/// The thread of the last written line, `None` if no line was written since the iteration
/// started.
pub type LastThread = Option<Option<usize>>;

/// What is written for a line: a separator if the traced thread changes, which it does for
/// the first line of an iteration, and the line itself.
pub open spec fn written(last: LastThread, line: Line) -> Seq<char> {
    let text = place_text(line.place) + ": "@ + line.text + "\n"@;
    if last == Some(line.thread) {
        text
    } else {
        separator_line(thread_label(line.thread)) + text
    }
}

/// The state of a trace: what was last written to its file.
#[derive(Debug)]
pub struct Trace {
    /// Thread of the last written line, to write a separator when it changes.
    ///
    /// `None` means "no line written since the last iteration started", and not "outside of
    /// a model": a separator is written for the first line of each iteration.
    last_thread: Option<Option<usize>>,
}

impl View for Trace {
    type V = LastThread;

    closed spec fn view(&self) -> LastThread {
        self.last_thread
    }
}

/// The state of the trace of a run, if tracing is enabled.
pub open spec fn state_of(trace: Option<Trace>) -> Option<LastThread> {
    match trace {
        Some(trace) => Some(trace@),
        None => None,
    }
}

/// The trace of a run, `is_set` telling whether [`VAR`] is set.
pub fn trace(is_set: bool) -> (trace: Option<Trace>)
    ensures
        state_of(trace) == if is_set {
            Some(None::<Option<usize>>)
        } else {
            None
        },
{
    if is_set {
        Some(Trace { last_thread: None })
    } else {
        None
    }
}

/// Whether tracing is enabled, i.e. whether [`VAR`] is set.
pub fn enabled(trace: &Option<Trace>) -> (enabled: bool)
    ensures
        enabled == (trace is Some),
{
    trace.is_some()
}

/// Appends a `= label =` separator line.
fn separator(out: &mut String, label: &str)
    ensures
        final(out)@ == old(out)@ + separator_line(label@),
{
    let mut labelled = String::new();
    labelled.append(" ");
    labelled.append(label);
    labelled.append(" ");
    proof {
        assert(labelled@ =~= " "@ + label@ + " "@);
    }
    let len: usize = byte_len(labelled.as_str());
    let padding: usize = if len < WIDTH {
        WIDTH - len
    } else {
        0
    };
    push_repeated(out, '=', padding / 2);
    out.append(labelled.as_str());
    push_repeated(out, '=', padding - padding / 2);
    out.append("\n");
    proof {
        assert(out@ =~= old(out)@ + separator_line(label@));
    }
}

/// Starts the trace of an iteration, and returns the text that the trace then consists of:
/// the file is truncated, so it only contains the iteration which is about to start.
pub fn new_iteration(trace: &mut Option<Trace>, iteration: usize) -> (contents: Option<String>)
    ensures
        match state_of(*old(trace)) {
            Some(_) => {
                &&& state_of(*final(trace)) == Some(None::<Option<usize>>)
                &&& contents matches Some(contents) && contents@ == separator_line(
                    iteration_label(iteration as nat),
                )
            },
            None => state_of(*final(trace)) is None && contents is None,
        },
{
    match trace {
        Some(trace) => {
            trace.last_thread = None;
            let mut label = String::new();
            label.append("iteration ");
            push_decimal(&mut label, iteration as u64);
            proof {
                assert(label@ =~= iteration_label(iteration as nat));
            }
            let mut contents = String::new();
            separator(&mut contents, label.as_str());
            proof {
                assert(contents@ =~= separator_line(iteration_label(iteration as nat)));
            }
            Some(contents)
        },
        None => None,
    }
}

impl Trace {
    /// Appends a line to the trace, which an operation performed at `location` by `thread` is
    /// traced as, and returns what is written for it.
    pub fn append_line(
        &mut self,
        location: &Location<'_>,
        thread: Option<usize>,
        line: &str,
    ) -> (appended: String)
        ensures
            final(self)@ == Some(thread),
            appended@ == written(old(self)@, Line { thread, place: location@, text: line@ }),
    {
        let mut appended = String::new();
        let unchanged: bool = match self.last_thread {
            Some(last) => same_thread(last, thread),
            None => false,
        };
        if !unchanged {
            self.last_thread = Some(thread);
            let mut label = String::new();
            match thread {
                Some(thread) => {
                    label.append("thread ");
                    push_decimal(&mut label, thread as u64);
                },
                None => {
                    label.append("unknown thread");
                },
            }
            proof {
                assert(label@ =~= thread_label(thread));
            }
            separator(&mut appended, label.as_str());
        }
        push_place(&mut appended, location.file, location.line, location.column);
        appended.append(": ");
        appended.append(line);
        appended.append("\n");
        proof {
            assert(appended@ =~= written(
                old(self)@,
                Line { thread, place: location@, text: line@ },
            ));
        }
        appended
    }
}

/// Traces an operation performed at `location` by `thread`, and returns the text to append to
/// the trace. The thread is not known outside of a model.
///
/// `args` formats what is traced of the operation. It is not called unless tracing is enabled.
pub fn write_at<F: FnOnce() -> String>(
    trace: &mut Option<Trace>,
    location: &Location<'_>,
    thread: Option<usize>,
    args: F,
) -> (appended: Option<String>)
    requires
        state_of(*old(trace)) is Some ==> args.requires(()),
    ensures
        match state_of(*old(trace)) {
            Some(last) => {
                &&& state_of(*final(trace)) == Some(Some(thread))
                &&& appended matches Some(appended) && exists|text: String| #[trigger]
                    args.ensures((), text) && appended@ == written(
                        last,
                        Line { thread, place: location@, text: text@ },
                    )
            },
            None => state_of(*final(trace)) is None && appended is None,
        },
{
    match trace {
        Some(trace) => {
            let line: String = args();
            Some(trace.append_line(location, thread, line.as_str()))
        },
        None => None,
    }
}

/// Traces an event of the tested code, at the location of the call that traces it.
///
/// `args` formats the event. It is not called unless tracing is enabled.
pub fn write<F: FnOnce() -> String>(
    trace: &mut Option<Trace>,
    caller: &Location<'_>,
    thread: Option<usize>,
    args: F,
) -> (appended: Option<String>)
    requires
        state_of(*old(trace)) is Some ==> args.requires(()),
    ensures
        match state_of(*old(trace)) {
            Some(last) => {
                &&& state_of(*final(trace)) == Some(Some(thread))
                &&& appended matches Some(appended) && exists|text: String| #[trigger]
                    args.ensures((), text) && appended@ == written(
                        last,
                        Line { thread, place: caller@, text: text@ },
                    )
            },
            None => state_of(*final(trace)) is None && appended is None,
        },
{
    write_at(trace, caller, thread, args)
}

/// Whether two threads are the same one, or are both unknown.
fn same_thread(a: Option<usize>, b: Option<usize>) -> (same: bool)
    ensures
        same == (a == b),
{
    match (a, b) {
        (Some(a), Some(b)) => a == b,
        (None, None) => true,
        _ => false,
    }
}

/// The file of a trace, and the state that goes with it.
pub struct TraceFile {
    pub contents: Seq<char>,
    pub last: LastThread,
}

/// What happens to a trace.
pub enum TraceEvent {
    /// An iteration starts.
    Iteration(nat),
    /// A line is traced.
    Line(Line),
}

/// The file once that happened.
pub open spec fn traced(file: TraceFile, event: TraceEvent) -> TraceFile {
    match event {
        TraceEvent::Iteration(iteration) => TraceFile {
            contents: separator_line(iteration_label(iteration)),
            last: None,
        },
        TraceEvent::Line(line) => TraceFile {
            contents: file.contents + written(file.last, line),
            last: Some(line.thread),
        },
    }
}

/// The file once all of that happened.
pub open spec fn all_traced(file: TraceFile, events: Seq<TraceEvent>) -> TraceFile
    decreases events.len(),
{
    if events.len() == 0 {
        file
    } else {
        traced(all_traced(file, events.drop_last()), events.last())
    }
}

/// The lines of an iteration, with their separators.
pub open spec fn lines_text(lines: Seq<Line>) -> Seq<char>
    decreases lines.len(),
{
    if lines.len() == 0 {
        seq![]
    } else {
        lines_text(lines.drop_last()) + written(last_thread(lines.drop_last()), lines.last())
    }
}

/// The thread of the last line, if there is one.
pub open spec fn last_thread(lines: Seq<Line>) -> LastThread {
    if lines.len() == 0 {
        None
    } else {
        Some(lines.last().thread)
    }
}

/// The trace of an iteration.
pub open spec fn iteration_text(iteration: nat, lines: Seq<Line>) -> Seq<char> {
    separator_line(iteration_label(iteration)) + lines_text(lines)
}

/// The lines as what happens to a trace.
pub open spec fn line_events(lines: Seq<Line>) -> Seq<TraceEvent> {
    lines.map_values(|line: Line| TraceEvent::Line(line))
}

/// The file only ever contains the last iteration: whatever was traced before it started, the
/// file consists of its separator and of the lines traced since.
pub proof fn law_file_contains_the_last_iteration(
    file: TraceFile,
    before: Seq<TraceEvent>,
    iteration: nat,
    lines: Seq<Line>,
)
    ensures
        all_traced(file, before.push(TraceEvent::Iteration(iteration)) + line_events(lines))
            == (TraceFile { contents: iteration_text(iteration, lines), last: last_thread(lines) }),
    decreases lines.len(),
{
    let started = before.push(TraceEvent::Iteration(iteration));
    let events = started + line_events(lines);
    if lines.len() == 0 {
        assert(events =~= started);
        assert(started.drop_last() =~= before);
        assert(iteration_text(iteration, lines) =~= separator_line(iteration_label(iteration)));
    } else {
        let head = lines.drop_last();
        law_file_contains_the_last_iteration(file, before, iteration, head);
        assert(events.drop_last() =~= started + line_events(head));
        assert(events.last() == TraceEvent::Line(lines.last()));
        assert(iteration_text(iteration, head) + written(last_thread(head), lines.last())
            =~= iteration_text(iteration, lines));
    }
}

/// A separator is written when the traced thread changes, and for the first line of an
/// iteration, and at no other time.
pub proof fn law_separator_is_written_when_the_thread_changes(lines: Seq<Line>, line: Line)
    ensures
        lines_text(lines.push(line)) == lines_text(lines) + (if lines.len() > 0
            && lines.last().thread == line.thread {
            Seq::<char>::empty()
        } else {
            separator_line(thread_label(line.thread))
        }) + (place_text(line.place) + ": "@ + line.text + "\n"@),
{
    let all = lines.push(line);
    assert(all.drop_last() =~= lines);
    assert(all.last() == line);
    assert(lines_text(all) =~= lines_text(lines) + (if lines.len() > 0 && lines.last().thread
        == line.thread {
        Seq::<char>::empty()
    } else {
        separator_line(thread_label(line.thread))
    }) + (place_text(line.place) + ": "@ + line.text + "\n"@));
}

/// The separator lines have the same width, unless their label is too long for it, and their
/// label is in the middle.
pub proof fn law_separator_fills_the_width(label: Seq<char>)
    ensures
        byte_length(separator_line(label)) == if byte_length(label) + 2 <= WIDTH {
            (WIDTH + 1) as nat
        } else {
            byte_length(label) + 3
        },
        separator_line(label) == repeated('=', padding(label) / 2) + (" "@ + label + " "@)
            + repeated('=', (padding(label) + 1) / 2) + "\n"@,
{
    reveal_strlit(" ");
    reveal_strlit("\n");
    let n = padding(label);
    let left = repeated('=', n / 2);
    let right = repeated('=', (n - n / 2) as nat);
    lemma_byte_length_ascii(" "@);
    lemma_byte_length_ascii("\n"@);
    lemma_byte_length_ascii(left);
    lemma_byte_length_ascii(right);
    lemma_byte_length_concat(" "@, label);
    lemma_byte_length_concat(" "@ + label, " "@);
    lemma_byte_length_concat(left, " "@ + label + " "@);
    lemma_byte_length_concat(left + (" "@ + label + " "@), right);
    lemma_byte_length_concat(left + (" "@ + label + " "@) + right, "\n"@);
    assert((n - n / 2) as nat == (n + 1) / 2);
}

/// An operation is traced as a single line, if its file and what is traced of it have one.
pub proof fn law_operation_is_traced_as_a_single_line(line: Line)
    requires
        is_one_line(line.place.file),
        is_one_line(line.text),
    ensures
        is_one_line(place_text(line.place) + ": "@ + line.text),
{
    reveal_strlit(":");
    reveal_strlit(": ");
    let file = line.place.file;
    let number = decimal(line.place.line as nat);
    let column = decimal(line.place.column as nat);
    lemma_decimal_is_one_line(line.place.line as nat);
    lemma_decimal_is_one_line(line.place.column as nat);
    assert(is_one_line(":"@));
    assert(is_one_line(": "@));
    lemma_one_line_concat(file, ":"@);
    lemma_one_line_concat(file + ":"@, number);
    lemma_one_line_concat(file + ":"@ + number, ":"@);
    lemma_one_line_concat(file + ":"@ + number + ":"@, column);
    lemma_one_line_concat(place_text(line.place), ": "@);
    lemma_one_line_concat(place_text(line.place) + ": "@, line.text);
}

/// The label of a separator tells the thread: that of a known one is `thread ` and its number in
/// decimal, and no two threads have the same, nor have a known one and the unknown one.
pub proof fn law_label_tells_the_thread(a: Option<usize>, b: Option<usize>, n: usize)
    ensures
        thread_label(a) == thread_label(b) ==> a == b,
        thread_label(Some(n)) == "thread "@ + decimal(n as nat),
        all_digits(thread_label(Some(n)).skip("thread "@.len() as int)),
        number(thread_label(Some(n)).skip("thread "@.len() as int)) == n,
        thread_label(None) == "unknown thread"@,
{
    reveal_strlit("thread ");
    reveal_strlit("unknown thread");
    assert("thread "@[0] == 't' && "unknown thread"@[0] == 'u');
    lemma_decimal(n as nat);
    assert(thread_label(Some(n)).skip("thread "@.len() as int) =~= decimal(n as nat));
    if thread_label(a) == thread_label(b) {
        if let (Some(x), Some(y)) = (a, b) {
            lemma_decimal(x as nat);
            lemma_decimal(y as nat);
            assert(thread_label(a).skip(7) =~= decimal(x as nat));
            assert(thread_label(b).skip(7) =~= decimal(y as nat));
        }
        if a is Some && b is None {
            assert(thread_label(a)[0] == 't');
        }
        if a is None && b is Some {
            assert(thread_label(b)[0] == 't');
        }
    }
}

/// The label of a separator tells the iteration, and is not that of a thread.
pub proof fn law_label_tells_the_iteration(a: nat, b: nat, thread: Option<usize>)
    ensures
        iteration_label(a) == iteration_label(b) ==> a == b,
        iteration_label(a) == "iteration "@ + decimal(a),
        number(iteration_label(a).skip("iteration "@.len() as int)) == a,
        iteration_label(a) != thread_label(thread),
{
    reveal_strlit("iteration ");
    reveal_strlit("thread ");
    reveal_strlit("unknown thread");
    lemma_decimal(a);
    lemma_decimal(b);
    assert(iteration_label(a).skip("iteration "@.len() as int) =~= decimal(a));
    assert(iteration_label(b).skip("iteration "@.len() as int) =~= decimal(b));
    assert(iteration_label(a)[0] == 'i');
    assert(thread_label(thread)[0] == 't' || thread_label(thread)[0] == 'u');
}

/// Whether a line is a label between two blanks, between `left` and `right` times a `=`.
pub open spec fn is_bar(line: Seq<char>, left: nat, label: Seq<char>, right: nat) -> bool {
    line == Seq::new(left, |i: int| '=') + seq![' '] + label + seq![' '] + Seq::new(
        right,
        |i: int| '=',
    ) + seq!['\n']
}

/// A separator is its label in the middle of a bar, of which one more `=` stands on the right if
/// their number is odd, and which fills the width unless the label is too long for it.
pub proof fn law_separator_is_a_bar_around_its_label(label: Seq<char>)
    ensures
        exists|left: nat, right: nat| #[trigger]
            is_bar(separator_line(label), left, label, right) && left <= right <= left + 1
                && left + right == if byte_length(label) + 2 < WIDTH {
                WIDTH - byte_length(label) - 2
            } else {
                0
            },
{
    reveal_strlit(" ");
    reveal_strlit("\n");
    let n = padding(label);
    let left = n / 2;
    let right = (n - n / 2) as nat;
    lemma_byte_length_ascii(" "@);
    lemma_byte_length_concat(" "@, label);
    lemma_byte_length_concat(" "@ + label, " "@);
    assert(separator_line(label) =~= Seq::new(left, |i: int| '=') + seq![' '] + label + seq![' ']
        + Seq::new(right, |i: int| '=') + seq!['\n']);
    assert(is_bar(separator_line(label), left, label, right));
}

/// A line is written with its location before it, after the separator of its thread exactly when
/// the last written line is not one of that thread.
pub proof fn law_line_is_written_under_its_thread(last: LastThread, line: Line)
    ensures
        last == Some(line.thread) ==> written(last, line) == place_text(line.place) + seq![
            ':',
            ' ',
        ] + line.text + seq!['\n'],
        last != Some(line.thread) ==> written(last, line) == separator_line(
            thread_label(line.thread),
        ) + written(Some(line.thread), line),
{
    reveal_strlit(": ");
    reveal_strlit("\n");
    assert(": "@ =~= seq![':', ' ']);
    assert("\n"@ =~= seq!['\n']);
}

/// Tracing is enabled exactly when there is a trace, whose state is that of the run.
pub proof fn law_state_is_that_of_the_trace(trace: Option<Trace>)
    ensures
        state_of(trace) is None <==> trace is None,
        trace matches Some(trace) ==> state_of(Some(trace)) == Some(trace@),
{
}

/// Of two lines written one after the other, the second one is separated from the first one
/// exactly when they are not of the same thread, and the separator names its thread.
pub proof fn law_lines_are_separated_by_thread(
    first: &mut Trace,
    second: &mut Trace,
    location: &Location<'_>,
    thread: Option<usize>,
    line: &str,
    other_location: &Location<'_>,
    other_thread: Option<usize>,
    other_line: &str,
    appended: String,
    other_appended: String,
)
    requires
        call_ensures(Trace::append_line, (first, location, thread, line), appended),
        old(second)@ == final(first)@,
        call_ensures(
            Trace::append_line,
            (second, other_location, other_thread, other_line),
            other_appended,
        ),
    ensures
        ({
            let text = place_text(other_location@) + seq![':', ' '] + other_line@ + seq!['\n'];
            other_appended@ == if thread == other_thread {
                text
            } else {
                separator_line(thread_label(other_thread)) + text
            }
        }),
{
    law_line_is_written_under_its_thread(
        Some(thread),
        Line { thread: other_thread, place: other_location@, text: other_line@ },
    );
    law_line_is_written_under_its_thread(
        Some(other_thread),
        Line { thread: other_thread, place: other_location@, text: other_line@ },
    );
}

/// An iteration starts with its separator, and its first line comes after the separator of its
/// thread, known or not.
pub proof fn law_iteration_starts_anew(
    starting: &mut Option<Trace>,
    iteration: usize,
    contents: Option<String>,
    tracing: &mut Trace,
    location: &Location<'_>,
    thread: Option<usize>,
    line: &str,
    appended: String,
)
    requires
        call_ensures(new_iteration, (starting, iteration), contents),
        state_of(*final(starting)) == Some(old(tracing)@),
        call_ensures(Trace::append_line, (tracing, location, thread, line), appended),
    ensures
        contents matches Some(contents) && contents@ == separator_line(
            "iteration "@ + decimal(iteration as nat),
        ),
        appended@ == separator_line(thread_label(thread)) + (place_text(location@) + seq![':', ' ']
            + line@ + seq!['\n']),
{
    let first = Line { thread, place: location@, text: line@ };
    law_line_is_written_under_its_thread(None, first);
    law_line_is_written_under_its_thread(Some(thread), first);
}

/// Nothing is written unless tracing is enabled, which it is exactly when the variable is set, and
/// stays as it is.
pub proof fn law_nothing_is_written_unless_enabled(
    is_set: bool,
    made: Option<Trace>,
    on: bool,
    starting: &mut Option<Trace>,
    iteration: usize,
    contents: Option<String>,
)
    requires
        call_ensures(trace, (is_set,), made),
        call_ensures(enabled, (&made,), on),
        *old(starting) == made,
        call_ensures(new_iteration, (starting, iteration), contents),
    ensures
        on <==> is_set,
        contents is Some <==> is_set,
        *final(starting) is Some <==> is_set,
{
}

/// What is traced of an operation, and of an event, is the text that was formatted for it, as one
/// line of its thread. Nothing is written if tracing is not enabled.
pub proof fn law_formatted_text_is_traced<F: FnOnce() -> String>(
    tracing: &mut Option<Trace>,
    location: &Location<'_>,
    thread: Option<usize>,
    args: F,
    appended: Option<String>,
)
    requires
        ({
            ||| call_ensures(write_at::<F>, (tracing, location, thread, args), appended)
            ||| call_ensures(write::<F>, (tracing, location, thread, args), appended)
        }),
    ensures
        *old(tracing) is None ==> appended is None && *final(tracing) is None,
        *old(tracing) matches Some(before) ==> {
            &&& *final(tracing) matches Some(after)
            &&& after@ == Some(thread)
            &&& appended matches Some(appended)
            &&& exists|text: String| #[trigger]
                args.ensures((), text) && appended@ == (if before@ == Some(thread) {
                    Seq::<char>::empty()
                } else {
                    separator_line(thread_label(thread))
                }) + (place_text(location@) + seq![':', ' '] + text@ + seq!['\n'])
        },
{
    if let Some(before) = *old(tracing) {
        let text = choose|text: String| #[trigger]
            args.ensures((), text) && (appended->0)@ == written(
                before@,
                Line { thread, place: location@, text: text@ },
            );
        let line = Line { thread, place: location@, text: text@ };
        law_line_is_written_under_its_thread(before@, line);
        law_line_is_written_under_its_thread(Some(thread), line);
        let end = place_text(location@) + seq![':', ' '] + text@ + seq!['\n'];
        assert(Seq::<char>::empty() + end =~= end);
    }
}

} // verus!
