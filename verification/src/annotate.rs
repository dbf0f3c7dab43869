//! The annotation of a file, one decision at a time.
//!
//! An [`Annotator`] walks the records of a file in order. Each call of
//! [`Annotator::step`] takes what happened since the last call and answers with what
//! to do next: look up a commit's summary, write a finished report line, or stop. The
//! caller does the work and reports back.

use vstd::prelude::*;
use crate::blame::{records_view, short_id, BlameRecord, BlameRecordView};
use crate::cache::LabelCache;
use crate::format::{
    decimal, largest_line_number, left_justified, lemma_decimal_len_monotonic,
    lemma_number_column_uniform, line_digits, line_digits_of, render, report_line, separator,
    zero_padded, LABEL_WIDTH,
};
use crate::log::summary_of;
use crate::process::{lossy_text, ProcessOutput};
use crate::resolve::{label_of_summary, lookup_pr};

verus! {

/// What happened since the last step.
#[derive(Debug)]
pub enum Event {
    /// Nothing that the annotator has to know: the run begins, or the last line was
    /// written. After a lookup it says that there is no summary to be had.
    Proceed,
    /// The lookup that the last step asked for has finished.
    LookupFinished(ProcessOutput),
}

/// What to do next.
#[derive(Debug, PartialEq, Eq)]
pub enum Action {
    /// Run `git log -1 --oneline` for this commit and report what it left behind.
    Lookup(String),
    /// Write this line of the report.
    Emit(String),
    /// Every line has been written.
    Finished,
}

/// The mathematical value of an [`Action`].
pub enum ActionView {
    Lookup(Seq<char>),
    Emit(Seq<char>),
    Finished,
}

impl View for Action {
    type V = ActionView;

    open spec fn view(&self) -> ActionView {
        match self {
            Action::Lookup(commit_id) => ActionView::Lookup(commit_id@),
            Action::Emit(line) => ActionView::Emit(line@),
            Action::Finished => ActionView::Finished,
        }
    }
}

/// How far an annotation has come.
pub struct Progress {
    /// The records of the file, in the order of its lines.
    pub records: Seq<BlameRecordView>,
    /// The width of the line-number column.
    pub line_digits: nat,
    /// How many records have been turned into lines.
    pub cursor: nat,
    /// The label of each commit resolved so far, by abbreviated id.
    pub labels: Map<Seq<char>, Seq<char>>,
    /// Whether the last step asked for a lookup.
    pub awaiting: bool,
    /// The abbreviated ids of the commits looked up since the start, in order.
    pub requested: Seq<Seq<char>>,
    /// The lines handed out since the start, in order.
    pub emitted: Seq<Seq<char>>,
}

/// The progress of an annotation that has not begun.
pub open spec fn initial(records: Seq<BlameRecordView>) -> Progress {
    Progress {
        records,
        line_digits: line_digits_of(records),
        cursor: 0,
        labels: Map::empty(),
        awaiting: false,
        requested: Seq::empty(),
        emitted: Seq::empty(),
    }
}

/// The abbreviated id of the commit of record `i`.
pub open spec fn short_id_at(s: Progress, i: int) -> Seq<char> {
    short_id(s.records[i].commit_id)
}

/// The report line of record `i` under the labels of `s`.
pub open spec fn line_at(s: Progress, i: int) -> Seq<char> {
    report_line(
        s.labels[short_id_at(s, i)],
        s.records[i].final_line_number,
        s.line_digits,
        s.records[i].content,
    )
}

/// The label that `event` resolves `commit_id` to, if any.
pub open spec fn resolution(commit_id: Seq<char>, event: Event) -> Option<Seq<char>> {
    match event {
        Event::Proceed => None,
        Event::LookupFinished(output) => label_of_summary(
            summary_of(
                commit_id,
                output.success,
                lossy_text(output.stdout@),
                lossy_text(output.stderr@),
            ),
        ),
    }
}

/// Whether `s` is waiting for the summary of the commit under its cursor.
pub open spec fn lookup_pending(s: Progress) -> bool {
    s.awaiting && s.cursor < s.records.len() && !s.labels.contains_key(
        short_id_at(s, s.cursor as int),
    )
}

/// The progress after `event` has been taken in. A pending lookup ends here, whatever
/// the event: the commit gets the label of its pull request, or else its own
/// abbreviated id.
pub open spec fn settled(s: Progress, event: Event) -> Progress {
    if lookup_pending(s) {
        let key = short_id_at(s, s.cursor as int);
        let label = match resolution(s.records[s.cursor as int].commit_id, event) {
            Some(found) => found,
            None => key,
        };
        Progress { labels: s.labels.insert(key, label), awaiting: false, ..s }
    } else {
        Progress { awaiting: false, ..s }
    }
}

/// The next action, and the progress with it: past the last record the run is finished;
/// a record whose commit has a label becomes a line; any other record calls for a
/// lookup and stays where it is.
pub open spec fn advanced(s: Progress) -> (Progress, ActionView) {
    if s.cursor >= s.records.len() {
        (s, ActionView::Finished)
    } else if s.labels.contains_key(short_id_at(s, s.cursor as int)) {
        let line = line_at(s, s.cursor as int);
        (
            Progress { cursor: s.cursor + 1, emitted: s.emitted.push(line), ..s },
            ActionView::Emit(line),
        )
    } else {
        (
            Progress {
                awaiting: true,
                requested: s.requested.push(short_id_at(s, s.cursor as int)),
                ..s
            },
            ActionView::Lookup(s.records[s.cursor as int].commit_id),
        )
    }
}

/// One step: take in the event, then decide.
pub open spec fn stepped(s: Progress, event: Event) -> (Progress, ActionView) {
    advanced(settled(s, event))
}

/// The state of an annotation in progress.
pub struct Annotator {
    records: Vec<BlameRecord>,
    digits: usize,
    cursor: usize,
    cache: LabelCache,
    awaiting: bool,
    requested: Ghost<Seq<Seq<char>>>,
    emitted: Ghost<Seq<Seq<char>>>,
}

impl View for Annotator {
    type V = Progress;

    closed spec fn view(&self) -> Progress {
        Progress {
            records: records_view(self.records@),
            line_digits: self.digits as nat,
            cursor: self.cursor as nat,
            labels: self.cache@,
            awaiting: self.awaiting,
            requested: self.requested@,
            emitted: self.emitted@,
        }
    }
}

impl Annotator {
    /// Begins the annotation of a file with these records.
    pub fn new(records: Vec<BlameRecord>) -> (annotator: Annotator)
        ensures
            annotator@ == initial(records_view(records@)),
            consistent(annotator@),
    {
        let digits = line_digits(&records);
        Annotator {
            records,
            digits,
            cursor: 0,
            cache: LabelCache::new(),
            awaiting: false,
            requested: Ghost(Seq::empty()),
            emitted: Ghost(Seq::empty()),
        }
    }

    /// Takes in `event` and decides what to do next.
    pub fn step(&mut self, event: Event) -> (action: Action)
        ensures
            (final(self)@, action@) == stepped(old(self)@, event),
            consistent(old(self)@) ==> consistent(final(self)@),
    {
        proof {
            if consistent(self@) {
                lemma_step_consistent(self@, event);
            }
        }
        if self.awaiting {
            self.awaiting = false;
            if self.cursor < self.records.len() {
                let short = self.records[self.cursor].short_commit_id();
                if self.cache.get(short.as_str()).is_none() {
                    let found = match &event {
                        Event::Proceed => None,
                        Event::LookupFinished(output) => lookup_pr(
                            self.records[self.cursor].commit_id.as_str(),
                            output,
                        ),
                    };
                    let label = match found {
                        Some(label) => label,
                        None => short.clone(),
                    };
                    self.cache.remember(short, label);
                }
            }
        }
        if self.cursor >= self.records.len() {
            return Action::Finished;
        }
        let short = self.records[self.cursor].short_commit_id();
        match self.cache.get(short.as_str()) {
            Some(label) => {
                let line = render(
                    label.as_str(),
                    self.records[self.cursor].final_line_number,
                    self.digits,
                    self.records[self.cursor].content.as_str(),
                );
                self.cursor = self.cursor + 1;
                self.emitted = Ghost(self.emitted@.push(line@));
                Action::Emit(line)
            },
            None => {
                self.awaiting = true;
                self.requested = Ghost(self.requested@.push(short@));
                Action::Lookup(self.records[self.cursor].commit_id.clone())
            },
        }
    }
}

/// What holds of every annotation from its beginning.
pub open spec fn consistent(s: Progress) -> bool {
    &&& s.cursor <= s.records.len()
    &&& s.line_digits == line_digits_of(s.records)
    &&& s.emitted.len() == s.cursor
    &&& forall|i: int| 0 <= i < s.cursor ==> s.labels.contains_key(#[trigger] short_id_at(s, i))
    &&& forall|i: int| 0 <= i < s.cursor ==> #[trigger] s.emitted[i] == line_at(s, i)
    &&& s.requested.no_duplicates()
    &&& forall|key: Seq<char>| #[trigger]
        s.labels.contains_key(key) ==> s.requested.contains(key)
    &&& forall|i: int|
        0 <= i < s.requested.len() ==> s.labels.contains_key(#[trigger] s.requested[i]) || (
        s.awaiting && i == s.requested.len() - 1)
    &&& s.awaiting ==> {
        &&& lookup_pending(s)
        &&& s.requested.len() > 0
        &&& s.requested.last() == short_id_at(s, s.cursor as int)
    }
}

/// The steps that an annotation can still take before it is finished, at most.
pub open spec fn steps_left(s: Progress) -> nat {
    if s.cursor >= s.records.len() {
        0
    } else if s.awaiting {
        (2 * (s.records.len() - s.cursor)) as nat
    } else {
        (2 * (s.records.len() - s.cursor) + 1) as nat
    }
}

/// An annotation begins consistent.
pub proof fn lemma_initial_consistent(records: Seq<BlameRecordView>)
    ensures
        consistent(initial(records)),
{
}

/// A step keeps an annotation consistent, whatever the event.
pub proof fn lemma_step_consistent(s: Progress, event: Event)
    requires
        consistent(s),
    ensures
        consistent(stepped(s, event).0),
{
    let m = settled(s, event);
    let t = stepped(s, event).0;
    // Taking in the event adds at most the label of the commit under the cursor, which
    // no line so far has used.
    assert(consistent(m)) by {
        assert forall|i: int| 0 <= i < m.cursor implies m.labels.contains_key(
            #[trigger] short_id_at(m, i),
        ) by {
            assert(s.labels.contains_key(short_id_at(s, i)));
        }
        assert forall|i: int| 0 <= i < m.cursor implies #[trigger] m.emitted[i] == line_at(m, i) by {
            assert(s.labels.contains_key(short_id_at(s, i)));
        }
    }
    assert forall|i: int| 0 <= i < t.cursor implies t.labels.contains_key(
        #[trigger] short_id_at(t, i),
    ) by {
        if i < m.cursor {
            assert(m.labels.contains_key(short_id_at(m, i)));
        }
    }
    assert forall|i: int| 0 <= i < t.cursor implies #[trigger] t.emitted[i] == line_at(t, i) by {
        if i < m.cursor {
            assert(m.labels.contains_key(short_id_at(m, i)));
        }
    }
    if m.cursor < m.records.len() && !m.labels.contains_key(short_id_at(m, m.cursor as int)) {
        // A lookup is asked for: its commit has no label, so it was never asked for.
        let key = short_id_at(m, m.cursor as int);
        assert(!m.requested.contains(key));
        assert forall|k: Seq<char>| #[trigger] t.labels.contains_key(k) implies t.requested.contains(
            k,
        ) by {
            let i = choose|i: int| 0 <= i < m.requested.len() && m.requested[i] == k;
            assert(t.requested[i] == k);
        }
    }
}

/// Every step but the one that finishes brings an annotation nearer to its end: a file
/// of `n` lines is done within `2 * n + 1` steps.
pub proof fn lemma_step_progress(s: Progress, event: Event)
    requires
        consistent(s),
    ensures
        steps_left(initial(s.records)) <= 2 * s.records.len() + 1,
        stepped(s, event).1 is Finished <==> settled(s, event).cursor >= s.records.len(),
        stepped(s, event).1 is Finished ==> stepped(s, event).0.cursor == s.records.len(),
        !(stepped(s, event).1 is Finished) ==> steps_left(stepped(s, event).0) < steps_left(s),
{
}

/// Whether line `i` of what `s` has handed out is the line of record `i`: the label of
/// the record's commit in its column, a space, the record's line number padded with
/// zeros to the width of the largest, the separator, and the record's content as it is.
pub open spec fn is_line_of_record(s: Progress, i: int) -> bool {
    let label = s.labels[short_id_at(s, i)];
    let number = zero_padded(decimal(s.records[i].final_line_number), line_digits_of(s.records));
    &&& s.labels.contains_key(short_id_at(s, i))
    &&& number.len() == line_digits_of(s.records)
    &&& s.emitted[i] == left_justified(label, LABEL_WIDTH as nat) + seq![' '] + number
        + separator() + s.records[i].content
}

/// A finished annotation has handed out one line for each line of the file, in order,
/// and all their line numbers have one width of at least one digit.
pub proof fn lemma_report_complete(s: Progress)
    requires
        consistent(s),
        s.cursor >= s.records.len(),
    ensures
        s.emitted.len() == s.records.len(),
        line_digits_of(s.records) >= 1,
        forall|i: int| 0 <= i < s.records.len() ==> is_line_of_record(s, i),
{
    lemma_decimal_len_monotonic(0, largest_line_number(s.records));
    assert forall|i: int| 0 <= i < s.records.len() implies is_line_of_record(s, i) by {
        lemma_number_column_uniform(s.records, i);
    }
}

/// A step hands out at most one line, and that line is the next of the report.
pub proof fn lemma_emit_appends(s: Progress, event: Event)
    ensures
        match stepped(s, event).1 {
            ActionView::Emit(line) => stepped(s, event).0.emitted == s.emitted.push(line)
                && stepped(s, event).0.cursor == s.cursor + 1,
            _ => stepped(s, event).0.emitted == s.emitted && stepped(s, event).0.cursor
                == s.cursor,
        },
{
}

/// No commit is looked up twice: the abbreviated ids for which a lookup was asked are
/// all different.
pub proof fn lemma_lookups_distinct(s: Progress)
    requires
        consistent(s),
    ensures
        s.requested.no_duplicates(),
{
}

/// A step asks for a lookup only of a commit that has none behind it, and records it.
pub proof fn lemma_lookup_is_new(s: Progress, event: Event)
    requires
        consistent(s),
    ensures
        match stepped(s, event).1 {
            ActionView::Lookup(commit_id) => {
                &&& !s.requested.contains(short_id(commit_id))
                &&& !s.labels.contains_key(short_id(commit_id))
                &&& stepped(s, event).0.requested == s.requested.push(short_id(commit_id))
            },
            _ => stepped(s, event).0.requested == s.requested,
        },
{
    let m = settled(s, event);
    if m.cursor < m.records.len() && !m.labels.contains_key(short_id_at(m, m.cursor as int)) {
        let key = short_id_at(m, m.cursor as int);
        if s.requested.contains(key) {
            let i = choose|i: int| 0 <= i < s.requested.len() && s.requested[i] == key;
            assert(s.labels.contains_key(s.requested[i]) || (s.awaiting && i == s.requested.len()
                - 1));
        }
    }
}

/// A label, once given, stays: no step changes or removes it.
pub proof fn lemma_labels_persist(s: Progress, event: Event, key: Seq<char>)
    requires
        s.labels.contains_key(key),
    ensures
        stepped(s, event).0.labels.contains_key(key),
        stepped(s, event).0.labels[key] == s.labels[key],
{
}

/// Two lines of the same commit show the same label.
pub proof fn lemma_same_commit_same_label(s: Progress, i: int, j: int)
    requires
        consistent(s),
        0 <= i < s.emitted.len(),
        0 <= j < s.emitted.len(),
        short_id_at(s, i) == short_id_at(s, j),
    ensures
        ({
            let label = s.labels[short_id_at(s, i)];
            &&& s.emitted[i] == report_line(
                label,
                s.records[i].final_line_number,
                s.line_digits,
                s.records[i].content,
            )
            &&& s.emitted[j] == report_line(
                label,
                s.records[j].final_line_number,
                s.line_digits,
                s.records[j].content,
            )
        }),
{
}

/// A commit whose lookup finds no pull request is labelled with its own abbreviated id.
pub proof fn lemma_fallback_label(s: Progress, event: Event)
    requires
        lookup_pending(s),
        resolution(s.records[s.cursor as int].commit_id, event) is None,
    ensures
        settled(s, event).labels[short_id_at(s, s.cursor as int)] == short_id_at(
            s,
            s.cursor as int,
        ),
        stepped(s, event).1 == ActionView::Emit(
            report_line(
                short_id_at(s, s.cursor as int),
                s.records[s.cursor as int].final_line_number,
                s.line_digits,
                s.records[s.cursor as int].content,
            ),
        ),
{
}

/// Whether record `i` is the first whose commit is abbreviated as `key`.
pub open spec fn is_first_with(records: Seq<BlameRecordView>, key: Seq<char>, i: int) -> bool {
    &&& 0 <= i < records.len()
    &&& short_id(records[i].commit_id) == key
    &&& forall|j: int| 0 <= j < i ==> short_id(#[trigger] records[j].commit_id) != key
}

/// The label of the commits abbreviated as `key`, where `found` tells what the lookup of
/// each commit finds: the lookup is that of the first record among them, and a lookup
/// that finds nothing leaves the abbreviated id itself.
pub open spec fn label_under(
    records: Seq<BlameRecordView>,
    found: spec_fn(Seq<char>) -> Option<Seq<char>>,
    key: Seq<char>,
) -> Seq<char> {
    let first = choose|i: int| is_first_with(records, key, i);
    match found(records[first].commit_id) {
        Some(label) => label,
        None => key,
    }
}

/// The whole report of `records`, where `found` tells what the lookup of each commit
/// finds.
pub open spec fn report_under(
    records: Seq<BlameRecordView>,
    found: spec_fn(Seq<char>) -> Option<Seq<char>>,
) -> Seq<Seq<char>> {
    Seq::new(
        records.len(),
        |i: int|
            report_line(
                label_under(records, found, short_id(records[i].commit_id)),
                records[i].final_line_number,
                line_digits_of(records),
                records[i].content,
            ),
    )
}

/// Whether the labels of `s` are those that `found` gives.
pub open spec fn follows(s: Progress, found: spec_fn(Seq<char>) -> Option<Seq<char>>) -> bool {
    forall|key: Seq<char>| #[trigger]
        s.labels.contains_key(key) ==> s.labels[key] == label_under(s.records, found, key)
}

/// Whether `event` answers the pending lookup of `s`, if there is one, as `found` tells.
pub open spec fn answers(
    s: Progress,
    event: Event,
    found: spec_fn(Seq<char>) -> Option<Seq<char>>,
) -> bool {
    lookup_pending(s) ==> resolution(s.records[s.cursor as int].commit_id, event) == found(
        s.records[s.cursor as int].commit_id,
    )
}

/// While every lookup is answered as `found` tells, the labels are those that `found`
/// gives.
pub proof fn lemma_step_follows(
    s: Progress,
    event: Event,
    found: spec_fn(Seq<char>) -> Option<Seq<char>>,
)
    requires
        consistent(s),
        follows(s, found),
        answers(s, event, found),
    ensures
        follows(stepped(s, event).0, found),
{
    let t = stepped(s, event).0;
    if lookup_pending(s) {
        // Every earlier record has its label, so the record under the cursor is the
        // first of its commit, and the new label is that of its lookup.
        let at = s.cursor as int;
        let key = short_id_at(s, at);
        assert(is_first_with(s.records, key, at)) by {
            assert forall|j: int| 0 <= j < at implies short_id(
                #[trigger] s.records[j].commit_id,
            ) != key by {
                assert(s.labels.contains_key(short_id_at(s, j)));
            }
        }
        let first = choose|i: int| is_first_with(s.records, key, i);
        assert(first == at);
    }
    assert forall|k: Seq<char>| #[trigger] t.labels.contains_key(k) implies t.labels[k]
        == label_under(t.records, found, k) by {
        if !lookup_pending(s) || k != short_id_at(s, s.cursor as int) {
            assert(s.labels.contains_key(k));
        }
    }
}

/// The lines handed out are the first lines of the report that `found` gives, and a
/// finished annotation has handed out all of it: the report depends on the records and
/// on what the lookups find, and on nothing else.
pub proof fn lemma_report_under(s: Progress, found: spec_fn(Seq<char>) -> Option<Seq<char>>)
    requires
        consistent(s),
        follows(s, found),
    ensures
        s.emitted == report_under(s.records, found).take(s.cursor as int),
        s.cursor >= s.records.len() ==> s.emitted == report_under(s.records, found),
{
    let report = report_under(s.records, found);
    assert forall|i: int| 0 <= i < s.cursor implies s.emitted[i] == report[i] by {
        assert(s.labels.contains_key(short_id_at(s, i)));
    }
}

} // verus!
