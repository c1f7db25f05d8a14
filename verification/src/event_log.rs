//! The durable event log: a bounded sequence of timestamped events with a
//! watermark that separates the entries already summarized from those that
//! are not.

use crate::events::{EventView, KeystrokeEvent};
use std::collections::VecDeque;
use vstd::prelude::*;

verus! {

/// The number of entries at which the log starts to evict.
pub const EVENT_LOG_CAPACITY: usize = 10000;

/// An event and the time at which it was logged.
#[derive(Debug, PartialEq, Eq)]
pub struct LogEntry {
    pub event: KeystrokeEvent,
    pub timestamp_ms: u64,
}

/// The model of a [`LogEntry`].
pub struct LogEntryView {
    pub event: EventView,
    pub timestamp_ms: u64,
}

impl View for LogEntry {
    type V = LogEntryView;

    open spec fn view(&self) -> LogEntryView {
        LogEntryView { event: self.event@, timestamp_ms: self.timestamp_ms }
    }
}

impl Clone for LogEntry {
    fn clone(&self) -> (r: Self)
        ensures
            r == *self,
    {
        LogEntry { event: self.event.clone(), timestamp_ms: self.timestamp_ms }
    }
}

/// The models of a sequence of entries.
pub open spec fn entry_views(entries: Seq<LogEntry>) -> Seq<LogEntryView> {
    entries.map_values(|e: LogEntry| e@)
}

/// The smaller of two integers.
pub open spec fn min(a: int, b: int) -> int {
    if a <= b {
        a
    } else {
        b
    }
}

/// The model of the event log: its entries, oldest first, and the number of
/// entries at the front that have been consumed.
pub struct LogView {
    pub entries: Seq<LogEntryView>,
    pub consumed: int,
}

impl LogView {
    /// The watermark lies within the entries.
    pub open spec fn wf(self) -> bool {
        0 <= self.consumed <= self.entries.len()
    }

    /// The empty log.
    pub open spec fn empty() -> LogView {
        LogView { entries: Seq::empty(), consumed: 0 }
    }

    /// The entries that have not been consumed, oldest first.
    pub open spec fn unconsumed(self) -> Seq<LogEntryView> {
        self.entries.skip(self.consumed)
    }

    /// The log after appending `entry`. A log at capacity first makes room:
    /// it drops all consumed entries if there are any, and the single oldest
    /// entry otherwise.
    pub open spec fn append(self, entry: LogEntryView) -> LogView {
        if self.entries.len() >= EVENT_LOG_CAPACITY {
            if self.consumed > 0 {
                LogView { entries: self.entries.skip(self.consumed).push(entry), consumed: 0 }
            } else {
                LogView { entries: self.entries.drop_first().push(entry), consumed: 0 }
            }
        } else {
            LogView { entries: self.entries.push(entry), consumed: self.consumed }
        }
    }

    /// The log after consuming `count` more entries: the watermark advances
    /// by `count`, but not past the end.
    pub open spec fn consume(self, count: int) -> LogView {
        LogView {
            entries: self.entries,
            consumed: min(self.consumed + count, self.entries.len() as int),
        }
    }

    /// The log after dropping its consumed entries.
    pub open spec fn compact(self) -> LogView {
        LogView { entries: self.entries.skip(self.consumed), consumed: 0 }
    }
}

/// The durable, watermarked event log.
#[derive(Debug)]
pub struct EventLog {
    events: VecDeque<LogEntry>,
    consumed_count: usize,
}

impl View for EventLog {
    type V = LogView;

    closed spec fn view(&self) -> LogView {
        LogView { entries: entry_views(self.events@), consumed: self.consumed_count as int }
    }
}

impl Default for EventLog {
    fn default() -> (r: Self)
        ensures
            r@ == LogView::empty(),
    {
        EventLog::new()
    }
}

impl EventLog {
    #[verifier::type_invariant]
    spec fn watermark_within_entries(self) -> bool {
        self.consumed_count <= self.events@.len()
    }

    /// An empty log.
    pub fn new() -> (r: Self)
        ensures
            r@ == LogView::empty(),
    {
        let r = EventLog { events: VecDeque::with_capacity(EVENT_LOG_CAPACITY), consumed_count: 0 };
        assert(entry_views(r.events@) =~= Seq::empty());
        r
    }

    /// A log of `entries` with the watermark at `consumed`, clamped to the
    /// number of entries.
    pub fn from_entries(entries: Vec<LogEntry>, consumed: usize) -> (r: Self)
        ensures
            r@.entries == entry_views(entries@),
            r@.consumed == min(consumed as int, entries@.len() as int),
            r@.wf(),
    {
        broadcast use vstd::std_specs::vecdeque::group_vec_dequeue_axioms;

        let mut events: VecDeque<LogEntry> = VecDeque::new();
        let ghost all = entries@;
        let total = entries.len();
        let mut i: usize = 0;
        while i < total
            invariant
                0 <= i <= total == entries@.len(),
                total == all.len(),
                events@.len() == i,
                forall|j: int| 0 <= j < i ==> events@[j] == all[j],
                forall|j: int| i <= j < total ==> entries@[j] == all[j],
            decreases total - i,
        {
            let entry = entries[i].clone();
            events.push_back(entry);
            i += 1;
        }
        assert(events@ =~= all);
        let consumed_count = if consumed >= total {
            total
        } else {
            consumed
        };
        EventLog { events, consumed_count }
    }

    /// Append an event with its timestamp. A log at capacity first drops its
    /// consumed entries, or its oldest entry if none is consumed.
    pub fn append(&mut self, event: KeystrokeEvent, timestamp_ms: u64)
        ensures
            final(self)@ == old(self)@.append(
                LogEntryView { event: event@, timestamp_ms: timestamp_ms },
            ),
            old(self)@.wf(),
            final(self)@.wf(),
    {
        broadcast use vstd::std_specs::vecdeque::group_vec_dequeue_axioms;

        proof {
            use_type_invariant(&*self);
        }
        let ghost entry = LogEntryView { event: event@, timestamp_ms: timestamp_ms };
        let mut consumed = self.consumed_count;
        self.consumed_count = 0;
        let mut events: VecDeque<LogEntry> = VecDeque::new();
        std::mem::swap(&mut self.events, &mut events);
        let ghost before = events@;
        if events.len() >= EVENT_LOG_CAPACITY {
            if consumed > 0 {
                let mut removed: usize = 0;
                while removed < consumed
                    invariant
                        0 <= removed <= consumed <= before.len(),
                        events@ == before.skip(removed as int),
                    decreases consumed - removed,
                {
                    events.pop_front();
                    removed += 1;
                    assert(events@ =~= before.skip(removed as int));
                }
                proof {
                    assert(entry_views(before.skip(consumed as int)) =~= entry_views(before).skip(
                        consumed as int,
                    ));
                }
                consumed = 0;
            } else {
                events.pop_front();
                assert(events@ =~= before.drop_first());
                assert(entry_views(before.drop_first()) =~= entry_views(before).drop_first());
            }
        }
        let ghost kept = events@;
        events.push_back(LogEntry { event, timestamp_ms });
        assert(entry_views(events@) =~= entry_views(kept).push(entry));
        self.events = events;
        self.consumed_count = consumed;
    }

    /// The unconsumed entries, oldest first.
    pub fn unconsumed(&self) -> (r: Vec<LogEntry>)
        ensures
            entry_views(r@) == self@.unconsumed(),
            self@.wf(),
    {
        broadcast use vstd::std_specs::vecdeque::group_vec_dequeue_axioms;

        proof {
            use_type_invariant(self);
        }
        let mut r: Vec<LogEntry> = Vec::new();
        let total = self.events.len();
        let mut i: usize = self.consumed_count;
        while i < total
            invariant
                self.consumed_count <= i <= total == self.events@.len(),
                r@ == self.events@.subrange(self.consumed_count as int, i as int),
            decreases total - i,
        {
            r.push(self.events[i].clone());
            i += 1;
            assert(r@ =~= self.events@.subrange(self.consumed_count as int, i as int));
        }
        assert(r@ =~= self.events@.skip(self.consumed_count as int));
        assert(entry_views(r@) =~= entry_views(self.events@).skip(self.consumed_count as int));
        r
    }

    /// The number of entries that have not been consumed.
    pub fn unconsumed_count(&self) -> (n: usize)
        ensures
            n == self@.unconsumed().len(),
            n == self@.entries.len() - self@.consumed,
            self@.wf(),
    {
        broadcast use vstd::std_specs::vecdeque::group_vec_dequeue_axioms;

        proof {
            use_type_invariant(self);
        }
        self.events.len() - self.consumed_count
    }

    /// The number of entries, consumed or not.
    pub fn total_count(&self) -> (n: usize)
        ensures
            n == self@.entries.len(),
            self@.wf(),
    {
        broadcast use vstd::std_specs::vecdeque::group_vec_dequeue_axioms;

        proof {
            use_type_invariant(self);
        }
        self.events.len()
    }

    /// The number of entries that have been consumed.
    pub fn consumed_count(&self) -> (n: usize)
        ensures
            n == self@.consumed,
            self@.wf(),
    {
        proof {
            use_type_invariant(self);
        }
        self.consumed_count
    }

    /// The entry at `index`, counted from the oldest.
    pub fn entry(&self, index: usize) -> (r: Option<&LogEntry>)
        ensures
            r is Some <==> index < self@.entries.len(),
            r matches Some(e) ==> e@ == self@.entries[index as int],
    {
        broadcast use vstd::std_specs::vecdeque::group_vec_dequeue_axioms;

        if index < self.events.len() {
            Some(&self.events[index])
        } else {
            None
        }
    }

    /// Mark `count` more entries as consumed. The watermark never passes the
    /// end of the log.
    pub fn consume(&mut self, count: usize)
        ensures
            final(self)@ == old(self)@.consume(count as int),
            old(self)@.wf(),
            final(self)@.wf(),
    {
        broadcast use vstd::std_specs::vecdeque::group_vec_dequeue_axioms;

        proof {
            use_type_invariant(&*self);
        }
        let room = self.events.len() - self.consumed_count;
        if count >= room {
            self.consumed_count = self.events.len();
        } else {
            self.consumed_count = self.consumed_count + count;
        }
    }

    /// Drop the consumed entries and reset the watermark.
    pub fn compact(&mut self)
        ensures
            final(self)@ == old(self)@.compact(),
            old(self)@.wf(),
            final(self)@.wf(),
    {
        broadcast use vstd::std_specs::vecdeque::group_vec_dequeue_axioms;

        proof {
            use_type_invariant(&*self);
        }
        let to_remove = self.consumed_count;
        self.consumed_count = 0;
        let mut events: VecDeque<LogEntry> = VecDeque::new();
        std::mem::swap(&mut self.events, &mut events);
        let ghost before = events@;
        let mut removed: usize = 0;
        while removed < to_remove
            invariant
                0 <= removed <= to_remove <= before.len(),
                events@ == before.skip(removed as int),
            decreases to_remove - removed,
        {
            events.pop_front();
            removed += 1;
            assert(events@ =~= before.skip(removed as int));
        }
        assert(entry_views(before.skip(to_remove as int)) =~= entry_views(before).skip(
            to_remove as int,
        ));
        self.events = events;
    }
}

/// A log at capacity with `k > 0` consumed entries drops exactly those on
/// the next append: it then holds `capacity - k + 1` entries, none consumed.
pub proof fn lemma_append_evicts_consumed(log: LogView, entry: LogEntryView)
    requires
        log.wf(),
        log.entries.len() == EVENT_LOG_CAPACITY,
        log.consumed > 0,
    ensures
        log.append(entry).entries.len() == EVENT_LOG_CAPACITY - log.consumed + 1,
        log.append(entry).consumed == 0,
        log.append(entry).entries == log.unconsumed().push(entry),
{
}

/// A log at capacity with nothing consumed drops exactly its oldest entry on
/// the next append: it stays at capacity and the watermark stays at 0.
pub proof fn lemma_append_evicts_oldest(log: LogView, entry: LogEntryView)
    requires
        log.wf(),
        log.entries.len() == EVENT_LOG_CAPACITY,
        log.consumed == 0,
    ensures
        log.append(entry).entries.len() == EVENT_LOG_CAPACITY,
        log.append(entry).consumed == 0,
        log.append(entry).entries == log.entries.drop_first().push(entry),
{
}

/// Appending never lets a log grow past its capacity, and keeps the
/// watermark within the entries.
pub proof fn lemma_append_bounded(log: LogView, entry: LogEntryView)
    requires
        log.wf(),
        log.entries.len() <= EVENT_LOG_CAPACITY,
    ensures
        log.append(entry).wf(),
        log.append(entry).entries.len() <= EVENT_LOG_CAPACITY,
        log.append(entry).entries.last() == entry,
{
}

/// Consuming `count` entries of a log with nothing consumed and then
/// compacting leaves the total count less `count`, or nothing when `count`
/// exceeds the total; all that is left is unconsumed.
pub proof fn lemma_consume_then_compact(log: LogView, count: nat)
    requires
        log.wf(),
        log.consumed == 0,
    ensures
        log.consume(count as int).compact().unconsumed().len() == log.entries.len() - min(
            count as int,
            log.entries.len() as int,
        ),
        log.consume(count as int).compact().entries == log.entries.skip(
            min(count as int, log.entries.len() as int),
        ),
{
}

/// Whatever the watermark, consuming `count` entries and then compacting
/// leaves the entries from the new watermark on, all unconsumed.
pub proof fn lemma_consume_then_compact_from(log: LogView, count: nat)
    requires
        log.wf(),
    ensures
        log.consume(count as int).compact().wf(),
        log.consume(count as int).compact().consumed == 0,
        log.consume(count as int).compact().unconsumed().len() == log.entries.len() - min(
            log.consumed + count,
            log.entries.len() as int,
        ),
{
}

/// The watermark stays within the entries under every operation.
pub proof fn lemma_log_stays_wf(log: LogView, entry: LogEntryView, count: nat)
    requires
        log.wf(),
    ensures
        log.append(entry).wf(),
        log.consume(count as int).wf(),
        log.compact().wf(),
{
}

/// Consuming nothing changes nothing, and the watermark never moves back.
pub proof fn lemma_consume_monotonic(log: LogView, count: nat)
    requires
        log.wf(),
    ensures
        log.consume(0) == log,
        log.consume(count as int).wf(),
        log.consume(count as int).consumed >= log.consumed,
        log.consume(count as int).entries == log.entries,
{
}

} // verus!
