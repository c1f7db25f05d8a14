//! Summaries of the event log: how many events of each kind were logged
//! since the last summary.

use crate::event_codec::{kind_of_name, lemma_kind_names};
use crate::event_log::{entry_views, EventLog, LogEntry, LogEntryView};
use crate::events::EventKind;
use vstd::prelude::*;

verus! {

/// The number of event kinds.
pub const EVENT_KIND_COUNT: usize = 8;

impl EventKind {
    /// The name of this kind.
    pub open spec fn spec_name(self) -> Seq<char> {
        match self {
            EventKind::TextTyped => "TextTyped"@,
            EventKind::Shortcut => "Shortcut"@,
            EventKind::Navigation => "Navigation"@,
            EventKind::EditControl => "EditControl"@,
            EventKind::Escape => "Escape"@,
            EventKind::FunctionKey => "FunctionKey"@,
            EventKind::SystemKey => "SystemKey"@,
            EventKind::PaneFocused => "PaneFocused"@,
        }
    }

    /// The name of this kind.
    pub fn name(&self) -> (r: &'static str)
        ensures
            r@ == self.spec_name(),
    {
        match self {
            EventKind::TextTyped => "TextTyped",
            EventKind::Shortcut => "Shortcut",
            EventKind::Navigation => "Navigation",
            EventKind::EditControl => "EditControl",
            EventKind::Escape => "Escape",
            EventKind::FunctionKey => "FunctionKey",
            EventKind::SystemKey => "SystemKey",
            EventKind::PaneFocused => "PaneFocused",
        }
    }

    /// The position of this kind in the alphabet.
    pub open spec fn spec_index(self) -> int {
        match self {
            EventKind::TextTyped => 0,
            EventKind::Shortcut => 1,
            EventKind::Navigation => 2,
            EventKind::EditControl => 3,
            EventKind::Escape => 4,
            EventKind::FunctionKey => 5,
            EventKind::SystemKey => 6,
            EventKind::PaneFocused => 7,
        }
    }

    /// The position of this kind in the alphabet.
    pub fn index(&self) -> (i: usize)
        ensures
            i == self.spec_index(),
            i < EVENT_KIND_COUNT,
            EventKind::spec_at(i as int) == *self,
    {
        match self {
            EventKind::TextTyped => 0,
            EventKind::Shortcut => 1,
            EventKind::Navigation => 2,
            EventKind::EditControl => 3,
            EventKind::Escape => 4,
            EventKind::FunctionKey => 5,
            EventKind::SystemKey => 6,
            EventKind::PaneFocused => 7,
        }
    }

    /// The kind at position `i` of the alphabet.
    pub open spec fn spec_at(i: int) -> EventKind {
        if i <= 0 {
            EventKind::TextTyped
        } else if i == 1 {
            EventKind::Shortcut
        } else if i == 2 {
            EventKind::Navigation
        } else if i == 3 {
            EventKind::EditControl
        } else if i == 4 {
            EventKind::Escape
        } else if i == 5 {
            EventKind::FunctionKey
        } else if i == 6 {
            EventKind::SystemKey
        } else {
            EventKind::PaneFocused
        }
    }

    /// The kind at position `i` of the alphabet.
    pub fn at(i: usize) -> (k: EventKind)
        requires
            i < EVENT_KIND_COUNT,
        ensures
            k == EventKind::spec_at(i as int),
            k.spec_index() == i,
    {
        if i == 0 {
            EventKind::TextTyped
        } else if i == 1 {
            EventKind::Shortcut
        } else if i == 2 {
            EventKind::Navigation
        } else if i == 3 {
            EventKind::EditControl
        } else if i == 4 {
            EventKind::Escape
        } else if i == 5 {
            EventKind::FunctionKey
        } else if i == 6 {
            EventKind::SystemKey
        } else {
            EventKind::PaneFocused
        }
    }
}

/// The number of entries of `kind` among `entries`.
pub open spec fn tally(entries: Seq<LogEntryView>, kind: EventKind) -> int
    decreases entries.len(),
{
    if entries.len() == 0 {
        0
    } else {
        tally(entries.drop_last(), kind) + if entries.last().event.kind() == kind {
            1int
        } else {
            0int
        }
    }
}

/// The names and counts of the first `upto` kinds of the alphabet that occur
/// among `entries`, in the order of the alphabet.
pub open spec fn type_counts(entries: Seq<LogEntryView>, upto: int) -> Seq<(Seq<char>, int)>
    decreases upto,
{
    if upto <= 0 {
        Seq::empty()
    } else {
        let kind = EventKind::spec_at(upto - 1);
        let rest = type_counts(entries, upto - 1);
        if tally(entries, kind) > 0 {
            rest.push((kind.spec_name(), tally(entries, kind)))
        } else {
            rest
        }
    }
}

/// No kind occurs more often than there are entries.
pub proof fn lemma_tally_bounded(entries: Seq<LogEntryView>, kind: EventKind)
    ensures
        0 <= tally(entries, kind) <= entries.len(),
    decreases entries.len(),
{
    if entries.len() > 0 {
        lemma_tally_bounded(entries.drop_last(), kind);
    }
}

/// The place in the alphabet of the kind that is called `name`, and -1
/// where no kind is called so.
pub open spec fn name_rank(name: Seq<char>) -> int {
    match kind_of_name(name) {
        Some(kind) => kind.spec_index(),
        None => -1,
    }
}

/// Every name of `types` is the name of one of the first `bound` kinds of
/// the alphabet, and the names stand in the order of the alphabet.
pub open spec fn ordered_below(types: Seq<(Seq<char>, int)>, bound: int) -> bool {
    &&& forall|i: int| 0 <= i < types.len() ==> 0 <= name_rank((#[trigger] types[i]).0) < bound
    &&& forall|i: int, j: int|
        0 <= i < j < types.len() ==> name_rank((#[trigger] types[i]).0) < name_rank(
            (#[trigger] types[j]).0,
        )
}

/// The counts of the kinds stand in the order of the alphabet.
pub proof fn lemma_type_counts_ordered(entries: Seq<LogEntryView>, upto: int)
    requires
        0 <= upto <= EVENT_KIND_COUNT,
    ensures
        ordered_below(type_counts(entries, upto), upto),
    decreases upto,
{
    if upto > 0 {
        lemma_type_counts_ordered(entries, upto - 1);
        lemma_kind_names(EventKind::spec_at(upto - 1));
    }
}

/// The aggregate of a run of log entries: how many there are, and how many
/// of each kind. The counts are kept as a list of names and numbers in
/// which no name occurs twice.
#[derive(Debug)]
pub struct Summary {
    events_consumed: usize,
    event_types: Vec<(String, usize)>,
}

/// The model of a [`Summary`].
pub struct SummaryView {
    pub events_consumed: int,
    pub event_types: Seq<(Seq<char>, int)>,
}

impl SummaryView {
    /// The names are names of kinds and stand in the order of the alphabet.
    pub open spec fn wf(self) -> bool {
        ordered_below(self.event_types, EVENT_KIND_COUNT as int)
    }

    /// No name occurs twice.
    pub open spec fn no_name_twice(self) -> bool {
        forall|i: int, j: int|
            0 <= i < j < self.event_types.len() ==> (#[trigger] self.event_types[i]).0 != (
            #[trigger] self.event_types[j]).0
    }
}

/// In a summary whose names stand in the order of the alphabet, no name
/// occurs twice.
pub proof fn lemma_no_name_twice(summary: SummaryView)
    requires
        summary.wf(),
    ensures
        summary.no_name_twice(),
{
}

impl View for Summary {
    type V = SummaryView;

    closed spec fn view(&self) -> SummaryView {
        SummaryView {
            events_consumed: self.events_consumed as int,
            event_types: type_views(self.event_types@),
        }
    }
}

/// The models of a list of names and numbers.
pub open spec fn type_views(types: Seq<(String, usize)>) -> Seq<(Seq<char>, int)> {
    types.map_values(|p: (String, usize)| (p.0@, p.1 as int))
}

/// The summary of `entries`.
pub open spec fn summary_of(entries: Seq<LogEntryView>) -> SummaryView {
    SummaryView {
        events_consumed: entries.len() as int,
        event_types: type_counts(entries, EVENT_KIND_COUNT as int),
    }
}

impl Summary {
    #[verifier::type_invariant]
    spec fn names_in_order(self) -> bool {
        self@.wf()
    }

    /// How many entries were summarized.
    pub fn events_consumed(&self) -> (n: usize)
        ensures
            n == self@.events_consumed,
    {
        self.events_consumed
    }

    /// The name of each kind that occurs, with the number of its entries,
    /// in the order of the alphabet. No name occurs twice.
    pub fn event_types(&self) -> (types: &Vec<(String, usize)>)
        ensures
            type_views(types@) == self@.event_types,
            self@.wf(),
            self@.no_name_twice(),
    {
        proof {
            use_type_invariant(self);
        }
        &self.event_types
    }

    /// Count the entries and the entries of each kind.
    pub fn from_events(entries: Vec<LogEntry>) -> (s: Summary)
        ensures
            s@ == summary_of(entry_views(entries@)),
            s@.wf(),
    {
        let ghost all = entry_views(entries@);
        let total = entries.len();
        let mut counts: Vec<usize> = Vec::new();
        let mut k: usize = 0;
        while k < EVENT_KIND_COUNT
            invariant
                0 <= k <= EVENT_KIND_COUNT,
                counts@.len() == k,
                forall|j: int| 0 <= j < k ==> counts@[j] == 0,
            decreases EVENT_KIND_COUNT - k,
        {
            counts.push(0);
            k += 1;
        }
        let mut i: usize = 0;
        while i < total
            invariant
                0 <= i <= total == entries@.len(),
                all == entry_views(entries@),
                counts@.len() == EVENT_KIND_COUNT,
                forall|j: int|
                    0 <= j < EVENT_KIND_COUNT ==> (#[trigger] counts@[j]) == tally(
                        all.take(i as int),
                        EventKind::spec_at(j),
                    ),
            decreases total - i,
        {
            let kind = entries[i].event.kind();
            let slot = kind.index();
            proof {
                assert(all.take(i + 1).drop_last() =~= all.take(i as int));
                assert(all.take(i + 1).last() == entries@[i as int]@);
                lemma_tally_bounded(all.take(i + 1), kind);
            }
            let bumped = counts[slot] + 1;
            counts.set(slot, bumped);
            proof {
                assert forall|j: int| 0 <= j < EVENT_KIND_COUNT implies (#[trigger] counts@[j])
                    == tally(all.take(i + 1), EventKind::spec_at(j)) by {
                    if j != slot {
                        assert(EventKind::spec_at(j) != kind);
                    }
                }
            }
            i += 1;
        }
        assert(all.take(total as int) =~= all);
        let mut event_types: Vec<(String, usize)> = Vec::new();
        let mut k: usize = 0;
        while k < EVENT_KIND_COUNT
            invariant
                0 <= k <= EVENT_KIND_COUNT,
                counts@.len() == EVENT_KIND_COUNT,
                forall|j: int|
                    0 <= j < EVENT_KIND_COUNT ==> (#[trigger] counts@[j]) == tally(
                        all,
                        EventKind::spec_at(j),
                    ),
                type_views(event_types@) == type_counts(
                    all,
                    k as int,
                ),
            decreases EVENT_KIND_COUNT - k,
        {
            let count = counts[k];
            let ghost shown = type_views(event_types@);
            if count > 0 {
                let kind = EventKind::at(k);
                let name = kind.name().to_owned();
                event_types.push((name, count));
                assert(type_views(event_types@)
                    =~= shown.push((kind.spec_name(), count as int)));
            }
            k += 1;
        }
        proof {
            lemma_type_counts_ordered(all, EVENT_KIND_COUNT as int);
        }
        Summary { events_consumed: total, event_types }
    }
}

/// Summarize the unconsumed entries of `event_log` and mark them consumed.
///
/// Returns `None`, and leaves the log as it is, when nothing is unconsumed.
/// Otherwise every entry of the log is consumed afterwards; the caller is
/// expected to persist the log promptly.
pub fn generate_summary(event_log: &mut EventLog) -> (r: Option<Summary>)
    ensures
        old(event_log)@.wf(),
        final(event_log)@.wf(),
        old(event_log)@.unconsumed().len() == 0 ==> r is None && final(event_log)@ == old(
            event_log,
        )@,
        old(event_log)@.unconsumed().len() > 0 ==> r is Some && r->0@ == summary_of(
            old(event_log)@.unconsumed(),
        ) && final(event_log)@ == old(event_log)@.consume(
            old(event_log)@.unconsumed().len() as int,
        ),
        final(event_log)@.entries == old(event_log)@.entries,
        r is Some ==> final(event_log)@.consumed == final(event_log)@.entries.len(),
{
    let unconsumed = event_log.unconsumed();
    if unconsumed.len() == 0 {
        return None;
    }
    let summary = Summary::from_events(unconsumed);
    let count = summary.events_consumed;
    event_log.consume(count);
    Some(summary)
}

} // verus!
