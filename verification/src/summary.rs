//! What a recording amounts to: how many records it holds and the speeds that
//! its deltas report.
//!
//! The speeds are handed out as they were read, in the order of the deltas.
//! Which of two speeds is the greater is a question about their values as
//! floats and is answered by whoever converts them; which speed is the
//! greatest of all is decided here, from those answers.

use crate::number::{is_float_literal, FloatLiteral};
use crate::record::{record_views, Record, RecordView};
use vstd::prelude::*;

verus! {

/// The summary of a recording.
#[derive(Debug, PartialEq, Eq)]
pub enum Summary {
    /// There is no delta, so there is no speed to report.
    NoData { records: usize },
    /// The speeds of the deltas, in order; there is at least one.
    Speeds { records: usize, speeds: Vec<FloatLiteral> },
}

/// What a summary holds, with the speeds as sequences of characters.
pub enum SummaryView {
    NoData { records: nat },
    Speeds { records: nat, speeds: Seq<Seq<char>> },
}

/// The views of a sequence of float literals, in order.
pub open spec fn literal_views(literals: Seq<FloatLiteral>) -> Seq<Seq<char>> {
    Seq::new(literals.len(), |i: int| literals[i]@)
}

impl View for Summary {
    type V = SummaryView;

    open spec fn view(&self) -> SummaryView {
        match *self {
            Summary::NoData { records } => SummaryView::NoData { records: records as nat },
            Summary::Speeds { records, speeds } => SummaryView::Speeds {
                records: records as nat,
                speeds: literal_views(speeds@),
            },
        }
    }
}

/// The speeds of the deltas among `records`, in order.
pub open spec fn delta_speeds(records: Seq<RecordView>) -> Seq<Seq<char>>
    decreases records.len(),
{
    if records.len() == 0 {
        Seq::empty()
    } else {
        match records.last() {
            RecordView::Delta { speed, .. } => delta_speeds(records.drop_last()).push(speed),
            _ => delta_speeds(records.drop_last()),
        }
    }
}

/// The summary of `records`: their number, and the speeds of the deltas if
/// there is any delta.
pub open spec fn summary_of(records: Seq<RecordView>) -> SummaryView {
    if delta_speeds(records).len() == 0 {
        SummaryView::NoData { records: records.len() }
    } else {
        SummaryView::Speeds { records: records.len(), speeds: delta_speeds(records) }
    }
}

/// Summarises a recording. It reads the records and changes nothing.
pub fn summarize(records: &Vec<Record>) -> (summary: Summary)
    ensures
        summary@ == summary_of(record_views(records@)),
        (forall|i: int| 0 <= i < records.len() ==> (#[trigger] records[i]).wf()) ==> (
        summary matches Summary::Speeds { speeds, .. } ==> forall|j: int|
            0 <= j < speeds.len() ==> (#[trigger] speeds[j]).wf()),
{
    let ghost all = record_views(records@);
    let mut speeds: Vec<FloatLiteral> = Vec::new();
    let mut i: usize = 0;
    assert(all.take(0) =~= Seq::empty());
    assert(literal_views(speeds@) =~= Seq::empty());
    while i < records.len()
        invariant
            i <= records.len(),
            all == record_views(records@),
            literal_views(speeds@) == delta_speeds(all.take(i as int)),
            (forall|k: int| 0 <= k < records.len() ==> (#[trigger] records[k]).wf()) ==> forall|
                j: int,
            | 0 <= j < speeds.len() ==> is_float_literal(#[trigger] speeds[j]@),
        decreases records.len() - i,
    {
        proof {
            assert(all.take(i + 1).drop_last() =~= all.take(i as int));
            assert(all.take(i + 1).last() == records[i as int]@);
        }
        match &records[i] {
            Record::Delta { speed, .. } => {
                let copy = speed.clone();
                proof {
                    assert(literal_views(speeds@.push(copy)) =~= literal_views(speeds@).push(
                        copy@,
                    ));
                }
                speeds.push(copy);
            },
            _ => {},
        }
        i += 1;
    }
    assert(all.take(i as int) =~= all);
    if speeds.len() == 0 {
        Summary::NoData { records: records.len() }
    } else {
        Summary::Speeds { records: records.len(), speeds }
    }
}

/// Every delta contributes its speed and nothing else does: there are as many
/// speeds as deltas, so a recording without a delta has none.
pub proof fn lemma_speeds_count_deltas(records: Seq<RecordView>)
    ensures
        delta_speeds(records).len() <= records.len(),
        delta_speeds(records).len() == 0 <==> forall|i: int|
            0 <= i < records.len() ==> !(records[i] is Delta),
    decreases records.len(),
{
    if records.len() > 0 {
        let earlier = records.drop_last();
        lemma_speeds_count_deltas(earlier);
        if delta_speeds(records).len() == 0 {
            assert forall|i: int| 0 <= i < records.len() implies !(records[i] is Delta) by {
                if i < earlier.len() {
                    assert(earlier[i] == records[i]);
                }
            }
        }
        if forall|i: int| 0 <= i < records.len() ==> !(records[i] is Delta) {
            assert forall|i: int| 0 <= i < earlier.len() implies !(earlier[i] is Delta) by {
                assert(earlier[i] == records[i]);
            }
            assert(!(records.last() is Delta));
        }
    }
}

/// The search for the greatest of a number of speeds. The caller compares
/// two speeds at a time and hands back the answer; the search decides which
/// speed is kept. The first speed is the greatest so far; every later speed
/// replaces the greatest so far unless that one exceeds it, so of two equal
/// speeds the later one is kept.
#[derive(Clone, Copy, Debug, PartialEq, Eq, Structural)]
pub struct SpeedScan {
    count: usize,
    next: usize,
    best: usize,
}

/// The state of a search: how many speeds there are, the position of the next
/// one to compare, and the position of the greatest so far.
pub struct ScanView {
    pub count: nat,
    pub next: nat,
    pub best: nat,
}

/// The search before any comparison.
pub open spec fn scan_start(count: nat) -> ScanView {
    ScanView { count, next: if count == 0 { 0 } else { 1 }, best: 0 }
}

/// The search after the answer to its pending comparison: `exceeds` tells
/// whether the greatest so far exceeds the next speed. A search that is over
/// stays as it is.
pub open spec fn scan_answered(state: ScanView, exceeds: bool) -> ScanView {
    if state.next < state.count {
        ScanView {
            count: state.count,
            next: state.next + 1,
            best: if exceeds {
                state.best
            } else {
                state.next
            },
        }
    } else {
        state
    }
}

/// The position that the search keeps among the first `seen` speeds when
/// every answer is given by the relation `exceeds`.
pub open spec fn best_of(seen: nat, exceeds: spec_fn(int, int) -> bool) -> nat
    decreases seen,
{
    if seen <= 1 {
        0
    } else if exceeds(best_of((seen - 1) as nat, exceeds) as int, seen - 1) {
        best_of((seen - 1) as nat, exceeds)
    } else {
        (seen - 1) as nat
    }
}

impl View for SpeedScan {
    type V = ScanView;

    closed spec fn view(&self) -> ScanView {
        ScanView { count: self.count as nat, next: self.next as nat, best: self.best as nat }
    }
}

impl SpeedScan {
    /// Starts the search among `count` speeds.
    pub fn new(count: usize) -> (scan: SpeedScan)
        ensures
            scan@ == scan_start(count as nat),
    {
        SpeedScan { count, next: if count == 0 { 0 } else { 1 }, best: 0 }
    }

    /// The comparison that the search waits for: the positions of the
    /// greatest speed so far and of the next speed. None when the search is
    /// over.
    pub fn pending(&self) -> (pair: Option<(usize, usize)>)
        ensures
            pair == if self@.next < self@.count {
                Some((self@.best as usize, self@.next as usize))
            } else {
                None
            },
    {
        if self.next < self.count {
            Some((self.best, self.next))
        } else {
            None
        }
    }

    /// Takes the answer to the pending comparison: whether the greatest speed
    /// so far exceeds the next one.
    pub fn answer(&mut self, exceeds: bool)
        ensures
            final(self)@ == scan_answered(old(self)@, exceeds),
    {
        if self.next < self.count {
            if !exceeds {
                self.best = self.next;
            }
            self.next = self.next + 1;
        }
    }

    /// The position of the greatest speed, once the search is over and there
    /// was any speed.
    pub fn greatest(&self) -> (position: Option<usize>)
        ensures
            position == if self@.count > 0 && self@.next >= self@.count {
                Some(self@.best as usize)
            } else {
                None
            },
    {
        if self.count > 0 && self.next >= self.count {
            Some(self.best)
        } else {
            None
        }
    }
}

/// A search that is answered by a relation keeps, at every step, what
/// `best_of` says.
pub proof fn lemma_scan_follows_relation(
    state: ScanView,
    exceeds: spec_fn(int, int) -> bool,
)
    requires
        1 <= state.next < state.count,
        state.best == best_of(state.next, exceeds),
    ensures
        scan_answered(state, exceeds(state.best as int, state.next as int)).best == best_of(
            state.next + 1,
            exceeds,
        ),
        scan_answered(state, exceeds(state.best as int, state.next as int)).next == state.next
            + 1,
{
}

/// The search finds the last of the greatest speeds. Where `exceeds` orders
/// the speeds (no two exceed each other, and a speed that exceeds a second
/// one exceeds every third that does not exceed the second), the position
/// kept among `seen` speeds is exceeded by none of them and exceeds all that
/// come after it.
pub proof fn lemma_scan_finds_last_greatest(seen: nat, exceeds: spec_fn(int, int) -> bool)
    requires
        seen >= 1,
        forall|i: int, j: int|
            0 <= i < seen && 0 <= j < seen && #[trigger] exceeds(i, j) ==> !exceeds(j, i),
        forall|i: int, j: int, k: int|
            0 <= i < seen && 0 <= j < seen && 0 <= k < seen && #[trigger] exceeds(i, j)
                && !#[trigger] exceeds(k, j) ==> exceeds(i, k),
    ensures
        best_of(seen, exceeds) < seen,
        forall|j: int| 0 <= j < seen ==> !#[trigger] exceeds(j, best_of(seen, exceeds) as int),
        forall|j: int|
            best_of(seen, exceeds) < j < seen ==> #[trigger] exceeds(
                best_of(seen, exceeds) as int,
                j,
            ),
    decreases seen,
{
    if seen > 1 {
        let before = best_of((seen - 1) as nat, exceeds) as int;
        let last = seen - 1;
        lemma_scan_finds_last_greatest((seen - 1) as nat, exceeds);
        let best = best_of(seen, exceeds) as int;
        if exceeds(before, last) {
            assert(best == before);
        } else {
            assert(best == last);
            assert forall|j: int| 0 <= j < seen implies !#[trigger] exceeds(j, best) by {
                if j < last && exceeds(j, last) {
                    assert(!exceeds(before, last));
                    assert(exceeds(j, before));
                }
            }
        }
    } else {
        assert(best_of(seen, exceeds) == 0);
        if exceeds(0, 0) {
            assert(!exceeds(0, 0));
        }
    }
}

/// An empty recording is summarised as holding no data.
pub proof fn lemma_empty_recording_has_no_data()
    ensures
        summary_of(Seq::empty()) == (SummaryView::NoData { records: 0 }),
{
}

} // verus!
