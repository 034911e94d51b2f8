//! The journal sink: decides what is written, where, and in which order.
//!
//! Events that arrive before the job is known are kept, oldest dropped
//! first. The job's arrival opens a file, and the kept events are written
//! to it before everything else. Journaling never fails a job: after the
//! first failure nothing more is written.
//!
//! The caller performs the file operations: it asks for the next line with
//! [`Writer::next_line`] and reports what became of it with
//! [`Writer::write_event`].

use vstd::prelude::*;

use crate::order;
use crate::path;
use crate::stamp;
use crate::text;

verus! {

/// Most journal files kept; the oldest, by name, go first.
pub const JOURNAL_RETAIN: usize = 50;

/// Most events kept before the job is known.
pub const PREACQ_BUF: usize = 256;

/// The journal directory of a data directory.
pub open spec fn jobs_dir(data_dir: Seq<char>) -> Seq<char> {
    path::joined(path::joined(data_dir, "_diag"@), "jobs"@)
}

/// The journal directory of a data directory: `<data_dir>/_diag/jobs`.
pub fn jobs_dir_for(data_dir: &str) -> (r: String)
    ensures
        r@ == jobs_dir(data_dir@),
{
    let diag = path::join(data_dir, "_diag");
    path::join(diag.as_str(), "jobs")
}

/// One journal line: its number in the file, its time and its event.
pub struct Line<E> {
    pub seq: u64,
    pub ts: String,
    pub event: E,
}

/// A line with its time as text.
pub struct LineView<E> {
    pub seq: nat,
    pub ts: Seq<char>,
    pub event: E,
}

/// An event with its time.
pub open spec fn stamped<E>(entries: Seq<(String, E)>) -> Seq<(Seq<char>, E)> {
    entries.map_values(|e: (String, E)| (e.0@, e.1))
}

/// The sink's state.
pub struct Writer<E> {
    dir: String,
    /// Events seen before the job was known.
    pre_acquire: Vec<(String, E)>,
    /// Events due to be written to the open file.
    due: Vec<(String, E)>,
    open: bool,
    failed: bool,
    file: OpenFile<E>,
}

/// The number of the next line of the open file, and the lines in it.
struct OpenFile<E> {
    seq: u64,
    lines: Ghost<Seq<LineView<E>>>,
}

/// The sink's state: whether a file is open, whether journaling has failed,
/// the events kept, the events due, and the lines in the open file.
pub struct WriterView<E> {
    pub dir: Seq<char>,
    pub kept: Seq<(Seq<char>, E)>,
    pub due: Seq<(Seq<char>, E)>,
    pub open: bool,
    pub failed: bool,
    pub lines: Seq<LineView<E>>,
}

/// What the caller does after an event was taken.
pub enum Next {
    /// Nothing: journaling has failed.
    Ignore,
    /// Nothing: the event is kept. `overflow` when the oldest was dropped.
    Kept { overflow: bool },
    /// Close the open file, if `rotate`, and open a new one.
    Open { rotate: bool },
    /// Write the lines that are due.
    Write,
}

/// What became of a line.
#[derive(Debug, Clone, Copy, PartialEq, Eq)]
pub enum LineOutcome {
    /// It is in the file.
    Written,
    /// It could not be serialized, and is left out.
    Skipped,
    /// It could not be masked: journaling stops so that no secret leaks.
    Unmasked,
    /// It could not be written.
    Failed,
}

/// What is appended to the journal for a serialized line: the masked text
/// and a line break. Without a masked text nothing is, and journaling stops.
pub fn line_to_append(masked: Option<String>) -> (r: Result<String, LineOutcome>)
    ensures
        match masked {
            Some(m) => r matches Ok(s) && s@ == m@ + "\n"@,
            None => r matches Err(LineOutcome::Unmasked),
        },
{
    match masked {
        Some(m) => Ok(text::cat2(m.as_str(), "\n")),
        None => Err(LineOutcome::Unmasked),
    }
}

/// The state after an event arrived at `ts`; `acquired` when the event says
/// which job runs.
pub open spec fn accepted<E>(w: WriterView<E>, acquired: bool, ts: Seq<char>, event: E) -> WriterView<
    E,
> {
    if w.failed {
        w
    } else if acquired {
        WriterView {
            kept: Seq::empty(),
            due: w.kept.push((ts, event)),
            open: false,
            lines: Seq::empty(),
            ..w
        }
    } else if w.open {
        WriterView { due: w.due.push((ts, event)), ..w }
    } else {
        WriterView { kept: kept_after(w.kept, (ts, event)), ..w }
    }
}

/// The kept events after one more; the oldest goes when the buffer is full.
pub open spec fn kept_after<E>(kept: Seq<(Seq<char>, E)>, entry: (Seq<char>, E)) -> Seq<
    (Seq<char>, E),
> {
    if kept.len() >= PREACQ_BUF {
        kept.drop_first().push(entry)
    } else {
        kept.push(entry)
    }
}

/// The answer to an event.
pub open spec fn answer<E>(w: WriterView<E>, acquired: bool) -> Next {
    if w.failed {
        Next::Ignore
    } else if acquired {
        Next::Open { rotate: w.open }
    } else if w.open {
        Next::Write
    } else {
        Next::Kept { overflow: w.kept.len() >= PREACQ_BUF }
    }
}

/// The state after journaling failed: closed, for good.
pub open spec fn failed_state<E>(w: WriterView<E>) -> WriterView<E> {
    WriterView { open: false, failed: true, due: Seq::empty(), ..w }
}

/// The state after the oldest due event had the given outcome.
pub open spec fn after_line<E>(w: WriterView<E>, entry: (Seq<char>, E), outcome: LineOutcome) -> WriterView<
    E,
> {
    match outcome {
        LineOutcome::Written => WriterView {
            lines: w.lines.push(
                LineView { seq: w.lines.len(), ts: entry.0, event: entry.1 },
            ),
            ..w
        },
        LineOutcome::Skipped => w,
        _ => failed_state(w),
    }
}

/// Lines are numbered from zero without gaps.
pub open spec fn numbered<E>(lines: Seq<LineView<E>>) -> bool {
    forall|i: int| 0 <= i < lines.len() ==> (#[trigger] lines[i]).seq == i
}

impl<E> View for Writer<E> {
    type V = WriterView<E>;

    closed spec fn view(&self) -> WriterView<E> {
        WriterView {
            dir: self.dir@,
            kept: stamped(self.pre_acquire@),
            due: stamped(self.due@),
            open: self.open,
            failed: self.failed,
            lines: self.file.lines@,
        }
    }
}

impl<E> Writer<E> {
    #[verifier::type_invariant]
    spec fn inv(self) -> bool {
        &&& self.pre_acquire@.len() <= PREACQ_BUF
        &&& self.file.seq == self.file.lines@.len()
        &&& numbered(self.file.lines@)
        &&& self.failed ==> !self.open && self.due@.len() == 0
    }

    /// A sink for journals in `dir`, with no file open.
    pub fn new(dir: &str) -> (r: Writer<E>)
        ensures
            r@ == (WriterView {
                dir: dir@,
                kept: Seq::<(Seq<char>, E)>::empty(),
                due: Seq::<(Seq<char>, E)>::empty(),
                open: false,
                failed: false,
                lines: Seq::<LineView<E>>::empty(),
            }),
    {
        let r = Writer {
            dir: dir.to_owned(),
            pre_acquire: Vec::new(),
            due: Vec::new(),
            open: false,
            failed: false,
            file: OpenFile { seq: 0, lines: Ghost(Seq::empty()) },
        };
        proof {
            assert(r@.kept =~= Seq::empty());
            assert(r@.due =~= Seq::empty());
        }
        r
    }

    /// Whether every event that was due has been asked for, so that the next
    /// one can be taken.
    pub fn idle(&self) -> (r: bool)
        ensures
            r == (self@.due.len() == 0),
    {
        self.due.len() == 0
    }

    /// Takes an event that arrived at `ts`; `acquired` when it says which
    /// job runs.
    pub fn handle(&mut self, acquired: bool, ts: String, event: E) -> (r: Next)
        requires
            old(self)@.due.len() == 0,
        ensures
            final(self)@ == accepted(old(self)@, acquired, ts@, event),
            r == answer(old(self)@, acquired),
            sound(final(self)@),
    {
        proof {
            use_type_invariant(&*self);
        }
        if self.failed {
            return Next::Ignore;
        }
        if acquired {
            let rotate: bool = self.open;
            let ghost kept = self@.kept;
            let mut due: Vec<(String, E)> = Vec::new();
            std::mem::swap(&mut due, &mut self.pre_acquire);
            due.push((ts, event));
            self.open = false;
            self.file = OpenFile { seq: 0, lines: Ghost(Seq::empty()) };
            self.due = due;
            proof {
                assert(self@.kept =~= Seq::empty());
                assert(self@.due =~= kept.push((ts@, event)));
            }
            return Next::Open { rotate };
        }
        if self.open {
            let ghost before = self@.due;
            let mut due: Vec<(String, E)> = Vec::new();
            std::mem::swap(&mut due, &mut self.due);
            due.push((ts, event));
            self.due = due;
            assert(self@.due =~= before.push((ts@, event)));
            return Next::Write;
        }
        self.keep(ts, event)
    }

    /// Keeps an event that arrived before the job was known.
    fn keep(&mut self, ts: String, event: E) -> (r: Next)
        requires
            !old(self)@.failed,
            !old(self)@.open,
        ensures
            final(self)@ == (WriterView {
                kept: kept_after(old(self)@.kept, (ts@, event)),
                ..old(self)@
            }),
            r == (Next::Kept { overflow: old(self)@.kept.len() >= PREACQ_BUF }),
            sound(final(self)@),
    {
        proof {
            use_type_invariant(&*self);
        }
        let ghost before = self@.kept;
        let mut kept: Vec<(String, E)> = Vec::new();
        std::mem::swap(&mut kept, &mut self.pre_acquire);
        let overflow: bool = kept.len() >= PREACQ_BUF;
        if overflow {
            kept.remove(0);
            assert(stamped(kept@) =~= before.drop_first());
        }
        kept.push((ts, event));
        self.pre_acquire = kept;
        assert(self@.kept =~= kept_after(before, (ts@, event)));
        Next::Kept { overflow }
    }

    /// Takes an event that arrives now.
    pub fn record(&mut self, acquired: bool, event: E) -> (r: Next)
        requires
            old(self)@.due.len() == 0,
        ensures
            exists|reading: Option<(u64, u32)>| final(self)@ == accepted(
                old(self)@,
                acquired,
                #[trigger] stamp::rfc3339_millis(reading),
                event,
            ),
            r == answer(old(self)@, acquired),
            sound(final(self)@),
    {
        let ts = stamp::rfc3339_millis_now();
        self.handle(acquired, ts, event)
    }

    /// Takes whether the new file could be opened.
    pub fn open_for_job(&mut self, ok: bool)
        ensures
            final(self)@ == opened_state(old(self)@, ok),
            sound(final(self)@),
    {
        proof {
            use_type_invariant(&*self);
        }
        if self.failed {
            return ;
        }
        if ok {
            self.open = true;
        } else {
            self.fail();
        }
    }

    /// The next line to write, if a file is open and an event is due.
    pub fn next_line(&mut self) -> (r: Option<Line<E>>)
        ensures
            match r {
                Some(line) => {
                    &&& old(self)@.open
                    &&& old(self)@.due.len() > 0
                    &&& line.seq == old(self)@.lines.len()
                    &&& (line.ts@, line.event) == old(self)@.due[0]
                    &&& final(self)@ == (WriterView {
                        due: old(self)@.due.drop_first(),
                        ..old(self)@
                    })
                },
                None => {
                    &&& !old(self)@.open || old(self)@.due.len() == 0
                    &&& final(self)@ == old(self)@
                },
            },
            sound(final(self)@),
    {
        proof {
            use_type_invariant(&*self);
        }
        if !self.open || self.due.len() == 0 {
            return None;
        }
        let ghost before = self@.due;
        let mut due: Vec<(String, E)> = Vec::new();
        std::mem::swap(&mut due, &mut self.due);
        let (ts, event) = due.remove(0);
        self.due = due;
        assert(self@.due =~= before.drop_first());
        Some(Line { seq: self.file.seq, ts, event })
    }

    /// Takes what became of `line`, the line last asked for.
    pub fn write_event(&mut self, line: &Line<E>, outcome: LineOutcome)
        requires
            old(self)@.lines.len() < u64::MAX,
        ensures
            final(self)@ == after_line(old(self)@, (line.ts@, line.event), outcome),
            sound(final(self)@),
    {
        proof {
            use_type_invariant(&*self);
        }
        match outcome {
            LineOutcome::Written => {
                let ghost lines = self.file.lines@.push(
                    LineView { seq: self.file.lines@.len(), ts: line.ts@, event: line.event },
                );
                let seq: u64 = self.file.seq + 1;
                self.file = OpenFile { seq, lines: Ghost(lines) };
            },
            LineOutcome::Skipped => {},
            _ => {
                self.fail();
            },
        }
    }

    /// Takes whether the open file could be flushed.
    pub fn flush(&mut self, ok: bool)
        ensures
            final(self)@ == if old(self)@.open && !ok {
                failed_state(old(self)@)
            } else {
                old(self)@
            },
            sound(final(self)@),
    {
        proof {
            use_type_invariant(&*self);
        }
        if self.open && !ok {
            self.fail();
        }
    }

    /// Stops journaling for good.
    fn fail(&mut self)
        ensures
            final(self)@ == failed_state(old(self)@),
            sound(final(self)@),
    {
        proof {
            use_type_invariant(&*self);
        }
        self.open = false;
        let mut due: Vec<(String, E)> = Vec::new();
        std::mem::swap(&mut due, &mut self.due);
        self.failed = true;
        assert(self@.due =~= Seq::empty());
    }
}

/// The state after a file was opened, or could not be.
pub open spec fn opened_state<E>(w: WriterView<E>, ok: bool) -> WriterView<E> {
    if w.failed {
        w
    } else if ok {
        WriterView { open: true, ..w }
    } else {
        failed_state(w)
    }
}

/// What holds in every state: lines are numbered from zero without gaps, no
/// more events are kept than fit, and after a failure no file is open and
/// nothing is due.
pub open spec fn sound<E>(w: WriterView<E>) -> bool {
    &&& numbered(w.lines)
    &&& w.kept.len() <= PREACQ_BUF
    &&& w.failed ==> !w.open && w.due.len() == 0
}

/// Every operation keeps the lines numbered from zero without gaps, the kept
/// events within bounds, and a failed sink closed.
pub proof fn law_sound_is_kept<E>(
    w: WriterView<E>,
    acquired: bool,
    ts: Seq<char>,
    event: E,
    ok: bool,
    outcome: LineOutcome,
)
    requires
        sound(w),
    ensures
        sound(accepted(w, acquired, ts, event)),
        sound(opened_state(w, ok)),
        sound(after_line(w, (ts, event), outcome)),
        sound(failed_state(w)),
{
}

/// Once journaling has failed, no event changes anything and nothing is ever
/// due again.
pub proof fn law_failure_is_final<E>(
    w: WriterView<E>,
    acquired: bool,
    ts: Seq<char>,
    event: E,
    ok: bool,
)
    requires
        sound(w),
        w.failed,
    ensures
        accepted(w, acquired, ts, event) == w,
        answer(w, acquired) is Ignore,
        opened_state(w, ok) == w,
        w.due.len() == 0,
{
}

/// The lines of a file whose due events are all written.
pub open spec fn all_written<E>(w: WriterView<E>) -> WriterView<E>
    decreases w.due.len(),
{
    if w.due.len() == 0 {
        w
    } else {
        all_written(
            after_line(
                WriterView { due: w.due.drop_first(), ..w },
                w.due[0],
                LineOutcome::Written,
            ),
        )
    }
}

/// Lines that hold the given events, numbered from `from`.
pub open spec fn lines_from<E>(entries: Seq<(Seq<char>, E)>, from: nat) -> Seq<LineView<E>> {
    Seq::new(
        entries.len(),
        |i: int| LineView { seq: (from + i) as nat, ts: entries[i].0, event: entries[i].1 },
    )
}

proof fn lemma_all_written<E>(w: WriterView<E>)
    ensures
        all_written(w).lines == w.lines + lines_from(w.due, w.lines.len()),
        all_written(w).due.len() == 0,
    decreases w.due.len(),
{
    if w.due.len() == 0 {
        assert(w.lines + lines_from(w.due, w.lines.len()) =~= w.lines);
    } else {
        let next = after_line(
            WriterView { due: w.due.drop_first(), ..w },
            w.due[0],
            LineOutcome::Written,
        );
        lemma_all_written(next);
        assert(next.lines + lines_from(next.due, next.lines.len()) =~= w.lines + lines_from(
            w.due,
            w.lines.len(),
        ));
    }
}

/// When the job becomes known and every write succeeds, the new file holds
/// the kept events in the order they arrived, then the event that named the
/// job, numbered from zero.
pub proof fn law_kept_events_are_replayed<E>(w: WriterView<E>, ts: Seq<char>, event: E)
    requires
        !w.failed,
    ensures
        all_written(opened_state(accepted(w, true, ts, event), true)).lines == lines_from(
            w.kept.push((ts, event)),
            0,
        ),
{
    let o = opened_state(accepted(w, true, ts, event), true);
    lemma_all_written(o);
    assert(o.lines + lines_from(o.due, 0) =~= lines_from(w.kept.push((ts, event)), 0));
}

/// The events kept after several arrived in a row.
pub open spec fn kept_after_all<E>(kept: Seq<(Seq<char>, E)>, entries: Seq<(Seq<char>, E)>) -> Seq<
    (Seq<char>, E),
>
    decreases entries.len(),
{
    if entries.len() == 0 {
        kept
    } else {
        kept_after(kept_after_all(kept, entries.drop_last()), entries.last())
    }
}

/// Of the events that arrive before the job is known, the last
/// [`PREACQ_BUF`] are kept, in order.
pub proof fn law_newest_events_are_kept<E>(entries: Seq<(Seq<char>, E)>)
    ensures
        kept_after_all(Seq::<(Seq<char>, E)>::empty(), entries) == if entries.len() <= PREACQ_BUF {
            entries
        } else {
            entries.skip(entries.len() - PREACQ_BUF)
        },
    decreases entries.len(),
{
    let none = Seq::<(Seq<char>, E)>::empty();
    if entries.len() == 0 {
        assert(entries =~= none);
    } else {
        let head = entries.drop_last();
        law_newest_events_are_kept(head);
        let kept = kept_after_all(none, head);
        let expected = if entries.len() <= PREACQ_BUF {
            entries
        } else {
            entries.skip(entries.len() - PREACQ_BUF)
        };
        assert(kept_after(kept, entries.last()) =~= expected);
    }
}

/// The name of a journal file: the time stamp, then the job.
pub open spec fn journal_name(stamp: Seq<char>, job: Seq<char>) -> Seq<char> {
    stamp + "-"@ + job + ".jsonl"@
}

/// The path of a job's journal in `dir`, for a job id that is safe in file
/// names.
pub fn journal_path(dir: &str, stamp: &str, job: &str) -> (r: String)
    ensures
        r@ == path::joined(dir@, journal_name(stamp@, job@)),
{
    let name = text::cat4(stamp, "-", job, ".jsonl");
    path::join(dir, name.as_str())
}

/// The path of a journal opened now.
pub fn journal_path_now(dir: &str, job: &str) -> (r: String)
    ensures
        exists|reading: Option<(u64, u32)>| r@ == path::joined(
            dir@,
            journal_name(#[trigger] stamp::compact(reading), job@),
        ),
{
    let now = stamp::compact_now();
    let r = journal_path(dir, now.as_str(), job);
    let ghost reading = choose|reading: Option<(u64, u32)>| now@ == #[trigger] stamp::compact(reading);
    assert(r@ == path::joined(dir@, journal_name(stamp::compact(reading), job@)));
    r
}

/// Whether a file name is a journal's.
pub open spec fn is_journal(name: Seq<char>) -> bool {
    path::extension(name) == Some("jsonl"@)
}

/// The journals among the file names.
pub open spec fn journals(names: Seq<Seq<char>>) -> Seq<Seq<char>>
    decreases names.len(),
{
    if names.len() == 0 {
        Seq::empty()
    } else if is_journal(names.last()) {
        journals(names.drop_last()).push(names.last())
    } else {
        journals(names.drop_last())
    }
}

/// How many of `count` journals go so that one more fits.
pub open spec fn excess(count: nat) -> nat {
    if count < JOURNAL_RETAIN {
        0
    } else {
        (count + 1 - JOURNAL_RETAIN) as nat
    }
}

/// The journals that go before a new one is created: the oldest by name.
pub open spec fn pruned(names: Seq<Seq<char>>) -> Seq<Seq<char>> {
    order::ascending(journals(names)).take(excess(journals(names).len()) as int)
}

/// The journals among the names of a directory's entries.
pub fn list_journals(names: &Vec<String>) -> (r: Vec<String>)
    ensures
        text::texts(r@) == journals(text::texts(names@)),
{
    let ghost all = text::texts(names@);
    let mut out: Vec<String> = Vec::new();
    let mut i: usize = 0;
    assert(text::texts(out@) =~= journals(all.take(0)));
    while i < names.len()
        invariant
            i <= names@.len(),
            all == text::texts(names@),
            text::texts(out@) == journals(all.take(i as int)),
        decreases names@.len() - i,
    {
        let ghost before = text::texts(out@);
        proof {
            assert(all.take(i + 1).drop_last() =~= all.take(i as int));
            assert(all.take(i + 1).last() == names@[i as int]@);
        }
        let keep: bool = match path::extension_of(names[i].as_str()) {
            Some(ext) => text::same(ext, "jsonl"),
            None => false,
        };
        if keep {
            out.push(names[i].clone());
            assert(text::texts(out@) =~= before.push(names@[i as int]@));
        }
        i = i + 1;
    }
    assert(all.take(all.len() as int) =~= all);
    out
}

/// The journals to delete before a new one is created, from the names of
/// the journal directory's entries.
pub fn prune_jobs_dir(names: &Vec<String>) -> (r: Vec<String>)
    ensures
        text::texts(r@) == pruned(text::texts(names@)),
{
    let found = list_journals(names);
    let mut sorted = order::sort_names(&found);
    let ghost all = text::texts(sorted@);
    let n: usize = sorted.len();
    proof {
        order::law_ascending_sorts(text::texts(found@));
    }
    let gone: usize = if n < JOURNAL_RETAIN {
        0
    } else {
        n - JOURNAL_RETAIN + 1
    };
    sorted.truncate(gone);
    assert(text::texts(sorted@) =~= all.take(gone as int));
    sorted
}

/// After pruning, a new journal leaves at most [`JOURNAL_RETAIN`] behind;
/// nothing goes while there is room.
pub proof fn law_retention(names: Seq<Seq<char>>)
    ensures
        pruned(names).len() <= journals(names).len(),
        journals(names).len() - pruned(names).len() + 1 <= JOURNAL_RETAIN,
        journals(names).len() < JOURNAL_RETAIN ==> pruned(names).len() == 0,
        journals(names).len() >= JOURNAL_RETAIN ==> journals(names).len() - pruned(names).len() + 1
            == JOURNAL_RETAIN,
{
    order::law_ascending_sorts(journals(names));
}

/// A journal that is kept comes no earlier by name than one that goes.
pub proof fn law_oldest_go_first(names: Seq<Seq<char>>, i: int, j: int)
    requires
        0 <= i < pruned(names).len(),
        pruned(names).len() <= j < journals(names).len(),
    ensures
        order::precedes(pruned(names)[i], order::ascending(journals(names))[j]),
{
    let sorted = order::ascending(journals(names));
    order::law_ascending_sorts(journals(names));
    let leq = order::name_order();
    assert(leq(sorted[i], sorted[j]));
}

/// An event goes to one place: nowhere after a failure; with the job's
/// arrival, behind the kept events into a new file; into the open file; or
/// into the buffer.
pub proof fn law_event_goes_to_one_place<E>(
    w: WriterView<E>,
    acquired: bool,
    ts: Seq<char>,
    event: E,
)
    ensures
        ({
            let next = accepted(w, acquired, ts, event);
            let said = answer(w, acquired);
            &&& next.dir == w.dir && next.failed == w.failed
            &&& said is Ignore <==> w.failed
            &&& w.failed ==> next == w
            &&& said is Open <==> !w.failed && acquired
            &&& said is Open ==> said == (Next::Open { rotate: w.open }) && next.due == w.kept + seq![
                (ts, event),
            ] && next.kept.len() == 0 && !next.open && next.lines.len() == 0
            &&& said is Write <==> !w.failed && !acquired && w.open
            &&& said is Write ==> next.due == w.due + seq![(ts, event)] && next.kept == w.kept
                && next.open && next.lines == w.lines
            &&& said is Kept <==> !w.failed && !acquired && !w.open
            &&& said is Kept ==> next.kept.len() > 0 && next.kept.last() == (ts, event) && next.due
                == w.due && !next.open
            &&& said matches Next::Kept { overflow } ==> (overflow <==> w.kept.len() >= 256) && (
            next.kept.len() == if overflow {
                w.kept.len()
            } else {
                w.kept.len() + 1
            })
        }),
{
    assert(w.kept.push((ts, event)) =~= w.kept + seq![(ts, event)]);
    assert(w.due.push((ts, event)) =~= w.due + seq![(ts, event)]);
}

/// A written line takes the next number, with the time and event that were
/// due; a line left out changes nothing; one that cannot be masked or written
/// stops journaling.
pub proof fn law_line_outcomes<E>(w: WriterView<E>, ts: Seq<char>, event: E)
    ensures
        after_line(w, (ts, event), LineOutcome::Written).lines == w.lines + seq![
            LineView { seq: w.lines.len(), ts, event },
        ],
        after_line(w, (ts, event), LineOutcome::Written).due == w.due,
        !after_line(w, (ts, event), LineOutcome::Written).failed || w.failed,
        after_line(w, (ts, event), LineOutcome::Written).open == w.open,
        after_line(w, (ts, event), LineOutcome::Skipped) == w,
        after_line(w, (ts, event), LineOutcome::Unmasked).failed,
        after_line(w, (ts, event), LineOutcome::Failed).failed,
        after_line(w, (ts, event), LineOutcome::Unmasked).lines == w.lines,
        !after_line(w, (ts, event), LineOutcome::Unmasked).open,
        !after_line(w, (ts, event), LineOutcome::Failed).open,
{
    let line = LineView { seq: w.lines.len(), ts, event };
    assert(w.lines.push(line) =~= w.lines + seq![line]);
}

/// A file that could be opened is written to; one that could not ends
/// journaling. What is due waits for the file.
pub proof fn law_opening<E>(w: WriterView<E>, ok: bool)
    requires
        !w.failed,
    ensures
        opened_state(w, ok).open <==> ok,
        opened_state(w, ok).failed <==> !ok,
        ok ==> opened_state(w, ok).due == w.due && opened_state(w, ok).lines == w.lines,
        !ok ==> opened_state(w, ok).due.len() == 0,
{
}

/// Only masked text is ever appended, with a line break behind it.
pub proof fn law_only_masked_text_is_appended(
    masked: Option<String>,
    r: Result<String, LineOutcome>,
)
    requires
        call_ensures(line_to_append, (masked,), r),
    ensures
        r is Ok <==> masked is Some,
        masked matches Some(m) ==> (r matches Ok(s) && s@ == m@ + "\n"@),
        masked is None ==> r matches Err(LineOutcome::Unmasked),
{
}

/// Journals lie in `_diag/jobs` of the data directory.
pub proof fn law_journals_lie_in_diag(data_dir: &str, dir: String)
    requires
        call_ensures(jobs_dir_for, (data_dir,), dir),
    ensures
        dir@ == path::joined(path::joined(data_dir@, "_diag"@), "jobs"@),
{
}

/// A journal's path is its directory and a name made of the time, the job and
/// the ending.
pub proof fn law_journal_is_named_by_time_and_job(dir: &str, stamp: &str, job: &str, r: String)
    requires
        call_ensures(journal_path, (dir, stamp, job), r),
    ensures
        r@ == path::joined(dir@, stamp@ + "-"@ + job@ + ".jsonl"@),
{
}

/// The journals are exactly the names with the journal ending, in order.
pub proof fn law_journals_by_ending(names: Seq<Seq<char>>, name: Seq<char>)
    ensures
        journals(seq![]).len() == 0,
        path::extension(name) == Some("jsonl"@) ==> journals(names.push(name)) == journals(
            names,
        ).push(name),
        path::extension(name) != Some("jsonl"@) ==> journals(names.push(name)) == journals(names),
{
    assert(names.push(name).drop_last() =~= names);
}

/// What is pruned are the first journals by name, and only those.
pub proof fn law_pruned_are_the_first(names: Seq<Seq<char>>, i: int)
    requires
        0 <= i < pruned(names).len(),
    ensures
        pruned(names)[i] == order::ascending(journals(names))[i],
        journals(names).len() >= 50,
        pruned(names).len() == journals(names).len() - 49,
{
    order::law_ascending_sorts(journals(names));
    law_retention(names);
}

/// Events are written in the order they are due, one at a time, each under
/// the next number; nothing is written without an open file.
pub proof fn law_next_line_is_the_oldest_due<E>(w: &mut Writer<E>, r: Option<Line<E>>)
    requires
        call_ensures(Writer::<E>::next_line, (w,), r),
    ensures
        r is Some <==> old(w)@.open && old(w)@.due.len() > 0,
        r matches Some(line) ==> {
            &&& line.ts@ == old(w)@.due[0].0
            &&& line.event == old(w)@.due[0].1
            &&& line.seq == old(w)@.lines.len()
            &&& final(w)@.due == old(w)@.due.skip(1)
        },
        r is None ==> final(w)@ == old(w)@,
        final(w)@.lines == old(w)@.lines,
{
    if r is Some {
        assert(old(w)@.due.drop_first() =~= old(w)@.due.skip(1));
    }
}

/// A file that cannot be flushed ends journaling; without an open file there
/// is nothing to flush.
pub proof fn law_failed_flush_ends_journaling<E>(w: &mut Writer<E>, ok: bool)
    requires
        call_ensures(Writer::<E>::flush, (w, ok), ()),
    ensures
        old(w)@.open && !ok ==> final(w)@.failed && !final(w)@.open,
        ok || !old(w)@.open ==> final(w)@ == old(w)@,
        final(w)@.lines == old(w)@.lines,
{
}

/// A written line is in the file with its time and event; a failed or unmasked
/// one stops journaling.
pub proof fn law_written_line_is_in_the_file<E>(
    w: &mut Writer<E>,
    line: Line<E>,
    outcome: LineOutcome,
)
    requires
        call_ensures(Writer::<E>::write_event, (w, &line, outcome), ()),
    ensures
        outcome is Written ==> final(w)@.lines.len() == old(w)@.lines.len() + 1
            && final(w)@.lines.last().event == line.event && final(w)@.lines.last().ts == line.ts@
            && final(w)@.lines.last().seq == old(w)@.lines.len(),
        outcome is Skipped ==> final(w)@ == old(w)@,
        outcome is Unmasked || outcome is Failed ==> final(w)@.failed,
{
}

/// An event is taken as it should: after a failure it is dropped, with the
/// job's arrival a new file is opened for it and everything kept, and
/// otherwise it is due in the open file or kept until there is one.
pub proof fn law_event_is_taken<E>(
    w: &mut Writer<E>,
    acquired: bool,
    ts: String,
    event: E,
    r: Next,
)
    requires
        call_ensures(Writer::<E>::handle, (w, acquired, ts, event), r),
    ensures
        r is Ignore <==> old(w)@.failed,
        r is Ignore ==> final(w)@ == old(w)@,
        r is Open <==> !old(w)@.failed && acquired,
        r is Open ==> final(w)@.due == old(w)@.kept + seq![(ts@, event)] && final(w)@.kept.len() == 0,
        r is Write <==> !old(w)@.failed && !acquired && old(w)@.open,
        r is Write ==> final(w)@.due == old(w)@.due + seq![(ts@, event)],
        r is Kept <==> !old(w)@.failed && !acquired && !old(w)@.open,
        r is Kept ==> final(w)@.kept.last() == (ts@, event),
{
    law_event_goes_to_one_place(old(w)@, acquired, ts@, event);
}

/// A file that could be opened takes what is due; one that could not ends
/// journaling.
pub proof fn law_file_is_opened<E>(w: &mut Writer<E>, ok: bool)
    requires
        call_ensures(Writer::<E>::open_for_job, (w, ok), ()),
    ensures
        !old(w)@.failed ==> (final(w)@.open <==> ok),
        !old(w)@.failed ==> (final(w)@.failed <==> !ok),
        !old(w)@.failed && ok ==> final(w)@.due == old(w)@.due,
        old(w)@.failed ==> final(w)@ == old(w)@,
{
}

/// A sink begins closed and empty, for its own directory; it is idle exactly
/// when nothing is due.
pub proof fn law_sink_begins_closed<E>(dir: &str, fresh: Writer<E>, w: Writer<E>, idle: bool)
    requires
        call_ensures(Writer::<E>::new, (dir,), fresh),
        call_ensures(Writer::<E>::idle, (&w,), idle),
    ensures
        fresh@.dir == dir@,
        !fresh@.open && !fresh@.failed,
        fresh@.kept.len() == 0 && fresh@.due.len() == 0 && fresh@.lines.len() == 0,
        idle <==> w@.due.len() == 0,
{
}

/// What is deleted before a new journal are the first by name of those there,
/// as many as are too many; what is no journal is left alone.
pub proof fn law_oldest_journals_are_deleted(
    names: Vec<String>,
    journals_there: Vec<String>,
    r: Vec<String>,
)
    requires
        call_ensures(prune_jobs_dir, (&names,), r),
        call_ensures(list_journals, (&names,), journals_there),
    ensures
        journals_there@.len() < 50 ==> r@.len() == 0,
        journals_there@.len() >= 50 ==> r@.len() == journals_there@.len() - 49,
        forall|i: int|
            0 <= i < r@.len() ==> (#[trigger] r@[i])@ == order::ascending(
                text::texts(journals_there@),
            )[i],
{
    law_retention(text::texts(names@));
    text::law_texts_are_those_of_the_strings(r@, None);
    text::law_texts_are_those_of_the_strings(journals_there@, None);
    order::law_ascending_sorts(text::texts(journals_there@));
    assert forall|i: int| 0 <= i < r@.len() implies (#[trigger] r@[i])@ == order::ascending(
        text::texts(journals_there@),
    )[i] by {
        assert(text::texts(r@)[i] == r@[i]@);
    }
}

} // verus!
