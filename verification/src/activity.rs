//! The activity ring: a bounded trace of recent keystroke events for display.
//!
//! Typed text is kept as one live entry at the tail of the ring while editing
//! keys keep arriving, so the trace shows what the user ended up with rather
//! than every key. Runs of the same navigation or deletion key are merged
//! into one entry with a count. When the ring is full the oldest entry leaves.

use crate::buffer::{
    apply_to_buffer, disposition, edit, is_editing, lemma_edit_wf, model, replay, BufferView,
    Disposition, LiveBuffer,
};
use crate::events::{EditControlEvent, EventView, KeystrokeEvent, NavigationEvent};
use crate::text::{char_index, lemma_offset_of_char_index, on_boundary};
use std::collections::VecDeque;
use vstd::prelude::*;

verus! {

/// Maximum number of entries kept in the activity ring.
pub const KEYSTROKE_LOG_CAPACITY: usize = 200;

/// The entry that `last` becomes when `new` is merged into it, if the two
/// merge: consecutive Backspaces, consecutive Deletes, and consecutive
/// navigation keys of one direction with the same modifiers add up their
/// counts. Nothing merges when the sum would not fit the count.
pub open spec fn merged(last: EventView, new: EventView) -> Option<EventView> {
    match (last, new) {
        (
            EventView::EditControl(EditControlEvent::Backspace { count: a }),
            EventView::EditControl(EditControlEvent::Backspace { count: b }),
        ) => if a + b <= usize::MAX {
            Some(EventView::EditControl(EditControlEvent::Backspace { count: (a + b) as usize }))
        } else {
            None
        },
        (
            EventView::EditControl(EditControlEvent::Delete { count: a }),
            EventView::EditControl(EditControlEvent::Delete { count: b }),
        ) => if a + b <= usize::MAX {
            Some(EventView::EditControl(EditControlEvent::Delete { count: (a + b) as usize }))
        } else {
            None
        },
        (EventView::Navigation(prev), EventView::Navigation(next)) => if prev.direction
            == next.direction && prev.with_shift == next.with_shift && prev.with_ctrl
            == next.with_ctrl && prev.count + next.count <= usize::MAX {
            Some(
                EventView::Navigation(
                    NavigationEvent {
                        direction: prev.direction,
                        count: (prev.count + next.count) as usize,
                        with_shift: prev.with_shift,
                        with_ctrl: prev.with_ctrl,
                    },
                ),
            )
        } else {
            None
        },
        _ => None,
    }
}

/// `entries` with `event` added at the end; the oldest entry leaves first
/// when the ring is full.
pub open spec fn appended(entries: Seq<EventView>, event: EventView) -> Seq<EventView> {
    if entries.len() >= KEYSTROKE_LOG_CAPACITY {
        entries.drop_first().push(event)
    } else {
        entries.push(event)
    }
}

/// `entries` with `event` merged into the last entry where the two merge,
/// and added at the end otherwise.
pub open spec fn coalesced(entries: Seq<EventView>, event: EventView) -> Seq<EventView> {
    if entries.len() > 0 && merged(entries.last(), event) is Some {
        entries.drop_last().push(merged(entries.last(), event)->0)
    } else {
        appended(entries, event)
    }
}

/// An entry of typed text holds at least one scalar.
pub open spec fn typed_nonempty(event: EventView) -> bool {
    event matches EventView::TextTyped(t) ==> t.len() > 0
}

/// The model of the activity ring: its entries, oldest first, and the cursor
/// (a scalar index) inside the last entry while that entry is live text.
pub struct ActivityView {
    pub entries: Seq<EventView>,
    pub cursor: Option<int>,
}

impl ActivityView {
    /// The text of the last entry, where that is typed text.
    pub open spec fn tail_text(self) -> Seq<char> {
        if self.entries.len() > 0 {
            match self.entries.last() {
                EventView::TextTyped(t) => t,
                _ => Seq::empty(),
            }
        } else {
            Seq::empty()
        }
    }

    /// The ring holds at most its capacity, no empty typed text, and a
    /// cursor only inside typed text at the tail.
    pub open spec fn wf(self) -> bool {
        &&& self.entries.len() <= KEYSTROKE_LOG_CAPACITY
        &&& forall|i: int|
            0 <= i < self.entries.len() ==> typed_nonempty(#[trigger] self.entries[i])
        &&& self.cursor matches Some(c) ==> {
            &&& self.entries.len() > 0
            &&& self.entries.last() is TextTyped
            &&& 0 <= c <= self.tail_text().len()
        }
    }

    /// The live buffer, if the tail of the ring is one.
    pub open spec fn live(self) -> Option<BufferView> {
        match self.cursor {
            Some(c) => Some(BufferView { text: self.tail_text(), cursor: c }),
            None => None,
        }
    }

    /// The entries that are no longer edited: all but a live tail.
    pub open spec fn settled(self) -> Seq<EventView> {
        if self.cursor is Some {
            self.entries.drop_last()
        } else {
            self.entries
        }
    }

    /// The ring after `event`. An event that the buffer absorbs replaces the
    /// live tail with the edited text (or removes it, when the text is gone);
    /// any other event ends the live text where it stands and is merged into
    /// the last entry or added after it.
    pub open spec fn push(self, event: EventView) -> ActivityView {
        match disposition(self.cursor is Some, event) {
            Disposition::Absorbed => match edit(self.live(), event) {
                Some(b) => ActivityView {
                    entries: appended(self.settled(), EventView::TextTyped(b.text)),
                    cursor: Some(b.cursor),
                },
                None => ActivityView { entries: self.settled(), cursor: None },
            },
            _ => ActivityView { entries: coalesced(self.entries, event), cursor: None },
        }
    }

    /// The ring after each of `events` in turn.
    pub open spec fn push_all(self, events: Seq<EventView>) -> ActivityView
        decreases events.len(),
    {
        if events.len() == 0 {
            self
        } else {
            self.push_all(events.drop_last()).push(events.last())
        }
    }
}

/// Adding an entry keeps the ring within its capacity and free of empty
/// typed text.
pub proof fn lemma_appended_keeps(entries: Seq<EventView>, event: EventView)
    requires
        entries.len() <= KEYSTROKE_LOG_CAPACITY,
        forall|i: int| 0 <= i < entries.len() ==> typed_nonempty(#[trigger] entries[i]),
        typed_nonempty(event),
    ensures
        0 < appended(entries, event).len() <= KEYSTROKE_LOG_CAPACITY,
        appended(entries, event).last() == event,
        forall|i: int|
            0 <= i < appended(entries, event).len() ==> typed_nonempty(
                #[trigger] appended(entries, event)[i],
            ),
{
    let next = appended(entries, event);
    assert forall|i: int| 0 <= i < next.len() implies typed_nonempty(#[trigger] next[i]) by {
        if i < next.len() - 1 {
            if entries.len() >= KEYSTROKE_LOG_CAPACITY {
                assert(next[i] == entries[i + 1]);
            } else {
                assert(next[i] == entries[i]);
            }
        }
    }
}

/// Merging or adding an entry keeps the ring within its capacity and free of
/// empty typed text.
pub proof fn lemma_coalesced_keeps(entries: Seq<EventView>, event: EventView)
    requires
        entries.len() <= KEYSTROKE_LOG_CAPACITY,
        forall|i: int| 0 <= i < entries.len() ==> typed_nonempty(#[trigger] entries[i]),
        typed_nonempty(event),
    ensures
        0 < coalesced(entries, event).len() <= KEYSTROKE_LOG_CAPACITY,
        forall|i: int|
            0 <= i < coalesced(entries, event).len() ==> typed_nonempty(
                #[trigger] coalesced(entries, event)[i],
            ),
{
    let next = coalesced(entries, event);
    if entries.len() > 0 && merged(entries.last(), event) is Some {
        assert forall|i: int| 0 <= i < next.len() implies typed_nonempty(#[trigger] next[i]) by {
            if i < next.len() - 1 {
                assert(next[i] == entries[i]);
            }
        }
    } else {
        lemma_appended_keeps(entries, event);
    }
}

/// The ring stays well formed under every event.
pub proof fn lemma_push_wf(ring: ActivityView, event: EventView)
    requires
        ring.wf(),
    ensures
        ring.push(event).wf(),
{
    lemma_edit_wf(ring.live(), event);
    let settled = ring.settled();
    assert forall|i: int| 0 <= i < settled.len() implies typed_nonempty(#[trigger] settled[i]) by {
        assert(settled[i] == ring.entries[i]);
    }
    match disposition(ring.cursor is Some, event) {
        Disposition::Absorbed => match edit(ring.live(), event) {
            Some(b) => {
                lemma_appended_keeps(settled, EventView::TextTyped(b.text));
            },
            None => {},
        },
        _ => {
            lemma_coalesced_keeps(ring.entries, event);
        },
    }
}

/// While only editing events arrive, the live text of the ring is the text
/// that the edits produce: each event changes the live buffer exactly as it
/// changes a buffer on its own.
pub proof fn lemma_push_edits_live(ring: ActivityView, event: EventView)
    requires
        ring.wf(),
        is_editing(event),
    ensures
        ring.push(event).live() == edit(ring.live(), event),
{
}

/// Starting from an empty ring, after any sequence of editing events (typed
/// text, Backspace, Delete, Left, Right, Home, End) the live text and its
/// cursor are those of replaying the edits, scalar by scalar, on an empty
/// text.
pub proof fn lemma_live_text_is_replay(events: Seq<EventView>)
    requires
        forall|i: int| 0 <= i < events.len() ==> is_editing(#[trigger] events[i]),
    ensures
        (ActivityView { entries: Seq::empty(), cursor: None }).push_all(events).wf(),
        (ActivityView { entries: Seq::empty(), cursor: None }).push_all(events).live() == replay(
            events,
        ),
    decreases events.len(),
{
    let empty = ActivityView { entries: Seq::empty(), cursor: None };
    if events.len() > 0 {
        lemma_live_text_is_replay(events.drop_last());
        let ring = empty.push_all(events.drop_last());
        lemma_push_wf(ring, events.last());
        lemma_push_edits_live(ring, events.last());
    }
}

/// A ring never holds more than its capacity. When a full ring takes an
/// event as a new entry, exactly the oldest entry leaves.
pub proof fn lemma_full_ring_drops_oldest(ring: ActivityView, event: EventView)
    requires
        ring.wf(),
        ring.entries.len() == KEYSTROKE_LOG_CAPACITY,
        disposition(ring.cursor is Some, event) != Disposition::Absorbed,
        merged(ring.entries.last(), event) is None,
    ensures
        ring.push(event).entries == ring.entries.drop_first().push(event),
        ring.push(event).entries.len() == KEYSTROKE_LOG_CAPACITY,
{
}

/// Adding an entry never takes a ring beyond its capacity. A full ring
/// loses exactly its oldest entry and keeps the others in their order; a
/// ring that is not full loses nothing. Either way the new entry is the
/// last one.
pub proof fn lemma_ring_append_bounded(entries: Seq<EventView>, event: EventView)
    requires
        entries.len() <= KEYSTROKE_LOG_CAPACITY,
    ensures
        appended(entries, event).len() <= KEYSTROKE_LOG_CAPACITY,
        appended(entries, event).last() == event,
        entries.len() == KEYSTROKE_LOG_CAPACITY ==> appended(entries, event) == entries.subrange(
            1,
            KEYSTROKE_LOG_CAPACITY as int,
        ).push(event),
        entries.len() < KEYSTROKE_LOG_CAPACITY ==> appended(entries, event) == entries.push(
            event,
        ),
{
    if entries.len() == KEYSTROKE_LOG_CAPACITY {
        assert(entries.drop_first() =~= entries.subrange(1, KEYSTROKE_LOG_CAPACITY as int));
    }
}

/// The models of a sequence of events.
pub open spec fn views(events: Seq<KeystrokeEvent>) -> Seq<EventView> {
    events.map_values(|e: KeystrokeEvent| e@)
}

/// Try to merge `new` into `last` in place. Returns `true` if the merge
/// happened, in which case `new` must not be added separately.
pub fn try_coalesce(last: &mut KeystrokeEvent, new: &KeystrokeEvent) -> (done: bool)
    ensures
        done == (merged(old(last)@, new@) is Some),
        done ==> final(last)@ == merged(old(last)@, new@)->0,
        !done ==> *final(last) == *old(last),
{
    let combined: Option<KeystrokeEvent> = match (&*last, new) {
        (
            KeystrokeEvent::EditControl(EditControlEvent::Backspace { count: a }),
            KeystrokeEvent::EditControl(EditControlEvent::Backspace { count: b }),
        ) => match a.checked_add(*b) {
            Some(sum) => Some(
                KeystrokeEvent::EditControl(EditControlEvent::Backspace { count: sum }),
            ),
            None => None,
        },
        (
            KeystrokeEvent::EditControl(EditControlEvent::Delete { count: a }),
            KeystrokeEvent::EditControl(EditControlEvent::Delete { count: b }),
        ) => match a.checked_add(*b) {
            Some(sum) => Some(KeystrokeEvent::EditControl(EditControlEvent::Delete { count: sum })),
            None => None,
        },
        (KeystrokeEvent::Navigation(prev), KeystrokeEvent::Navigation(next)) => {
            if prev.direction == next.direction && prev.with_shift == next.with_shift
                && prev.with_ctrl == next.with_ctrl {
                match prev.count.checked_add(next.count) {
                    Some(sum) => Some(
                        KeystrokeEvent::Navigation(
                            NavigationEvent {
                                direction: prev.direction,
                                count: sum,
                                with_shift: prev.with_shift,
                                with_ctrl: prev.with_ctrl,
                            },
                        ),
                    ),
                    None => None,
                }
            } else {
                None
            }
        },
        _ => None,
    };
    match combined {
        Some(event) => {
            *last = event;
            true
        },
        None => false,
    }
}

/// Accumulates keystroke events for display, applying editing keys to the
/// text being typed so that the trace shows the text net of corrections.
#[derive(Debug)]
pub struct KeystrokeActivity {
    /// Bounded ring of entries, oldest first.
    events: VecDeque<KeystrokeEvent>,
    /// Byte offset of the cursor inside the last entry while it is live text.
    cursor: Option<usize>,
}

/// The model of a ring with the entries `events` and the byte cursor
/// `cursor` inside its last entry.
pub open spec fn ring_view(events: Seq<KeystrokeEvent>, cursor: Option<usize>) -> ActivityView {
    let entries = views(events);
    ActivityView {
        entries,
        cursor: match cursor {
            Some(c) => Some(
                char_index(ActivityView { entries, cursor: None }.tail_text(), c as int),
            ),
            None => None,
        },
    }
}

/// What holds of the entries and the byte cursor of every ring: the ring is
/// within its capacity, no typed text is empty, and a cursor lies on a
/// scalar boundary of typed text at the tail.
pub open spec fn ring_ok(events: Seq<KeystrokeEvent>, cursor: Option<usize>) -> bool {
    &&& events.len() <= KEYSTROKE_LOG_CAPACITY
    &&& forall|i: int| 0 <= i < events.len() ==> typed_nonempty((#[trigger] events[i])@)
    &&& cursor matches Some(c) ==> {
        &&& events.len() > 0
        &&& events.last() is TextTyped
        &&& on_boundary(events.last()->TextTyped_0@, c as int)
    }
}

/// The model of a ring is well formed.
pub proof fn lemma_ring_view_wf(events: Seq<KeystrokeEvent>, cursor: Option<usize>)
    requires
        ring_ok(events, cursor),
    ensures
        ring_view(events, cursor).wf(),
{
    let entries = views(events);
    assert forall|i: int| 0 <= i < entries.len() implies typed_nonempty(#[trigger] entries[i]) by {
        assert(entries[i] == events[i]@);
    }
    if let Some(c) = cursor {
        let last = events.last();
        assert(entries.last() == last@);
        lemma_offset_of_char_index(last->TextTyped_0@, c as int);
    }
}

impl View for KeystrokeActivity {
    type V = ActivityView;

    closed spec fn view(&self) -> ActivityView {
        ring_view(self.events@, self.cursor)
    }
}

impl Default for KeystrokeActivity {
    fn default() -> (r: Self)
        ensures
            r@ == (ActivityView { entries: Seq::empty(), cursor: None }),
    {
        KeystrokeActivity::new()
    }
}

impl KeystrokeActivity {
    #[verifier::type_invariant]
    spec fn ring_invariant(self) -> bool {
        ring_ok(self.events@, self.cursor)
    }

    /// An empty ring.
    pub fn new() -> (r: Self)
        ensures
            r@ == (ActivityView { entries: Seq::empty(), cursor: None }),
    {
        let r = KeystrokeActivity { events: VecDeque::new(), cursor: None };
        assert(views(r.events@) =~= Seq::empty());
        r
    }

    /// All entries, oldest first.
    pub fn events(&self) -> (r: &VecDeque<KeystrokeEvent>)
        ensures
            views(r@) == self@.entries,
            self@.wf(),
    {
        proof {
            use_type_invariant(self);
            lemma_ring_view_wf(self.events@, self.cursor);
        }
        &self.events
    }

    /// Clear all entries and forget the live text.
    pub fn clear(&mut self)
        ensures
            final(self)@ == (ActivityView { entries: Seq::empty(), cursor: None }),
    {
        proof {
            use_type_invariant(&*self);
        }
        self.cursor = None;
        let mut events: VecDeque<KeystrokeEvent> = VecDeque::new();
        std::mem::swap(&mut self.events, &mut events);
        assert(views(self.events@) =~= Seq::empty());
    }

    /// Add `event` at the end of `events`, dropping the oldest entry first
    /// when the ring is full.
    fn append(events: &mut VecDeque<KeystrokeEvent>, event: KeystrokeEvent)
        requires
            old(events)@.len() <= KEYSTROKE_LOG_CAPACITY,
            forall|i: int|
                0 <= i < old(events)@.len() ==> typed_nonempty((#[trigger] old(events)@[i])@),
            typed_nonempty(event@),
        ensures
            0 < final(events)@.len() <= KEYSTROKE_LOG_CAPACITY,
            final(events)@.last() == event,
            old(events)@.len() == KEYSTROKE_LOG_CAPACITY ==> final(events)@ == old(
                events,
            )@.subrange(1, KEYSTROKE_LOG_CAPACITY as int).push(event),
            old(events)@.len() < KEYSTROKE_LOG_CAPACITY ==> final(events)@ == old(events)@.push(
                event,
            ),
            forall|i: int|
                0 <= i < final(events)@.len() ==> typed_nonempty((#[trigger] final(events)@[i])@),
            views(final(events)@) == appended(views(old(events)@), event@),
    {
        broadcast use vstd::std_specs::vecdeque::group_vec_dequeue_axioms;

        let ghost before = events@;
        if events.len() >= KEYSTROKE_LOG_CAPACITY {
            events.pop_front();
            assert(events@ =~= before.drop_first());
            assert(events@ =~= before.subrange(1, KEYSTROKE_LOG_CAPACITY as int));
        }
        let ghost kept = events@;
        events.push_back(event);
        assert(events@ =~= kept.push(event));
        assert(views(events@) =~= appended(views(before), event@));
        assert forall|i: int| 0 <= i < events@.len() implies typed_nonempty(
            (#[trigger] events@[i])@,
        ) by {
            if i < events@.len() - 1 {
                assert(events@[i] == kept[i]);
                if before.len() >= KEYSTROKE_LOG_CAPACITY {
                    assert(kept[i] == before[i + 1]);
                }
            }
        }
    }

    /// Merge `event` into the last entry of `events` where the two merge;
    /// add it at the end otherwise.
    fn coalesce_or_append(events: &mut VecDeque<KeystrokeEvent>, event: KeystrokeEvent)
        requires
            old(events)@.len() <= KEYSTROKE_LOG_CAPACITY,
            forall|i: int|
                0 <= i < old(events)@.len() ==> typed_nonempty((#[trigger] old(events)@[i])@),
            typed_nonempty(event@),
        ensures
            final(events)@.len() <= KEYSTROKE_LOG_CAPACITY,
            forall|i: int|
                0 <= i < final(events)@.len() ==> typed_nonempty((#[trigger] final(events)@[i])@),
            views(final(events)@) == coalesced(views(old(events)@), event@),
    {
        broadcast use vstd::std_specs::vecdeque::group_vec_dequeue_axioms;

        let ghost before = events@;
        match events.pop_back() {
            Some(last) => {
                let mut last = last;
                assert(events@ =~= before.drop_last());
                assert(views(before).last() == before.last()@);
                let done = try_coalesce(&mut last, &event);
                events.push_back(last);
                if done {
                    assert(views(events@) =~= coalesced(views(before), event@));
                    assert forall|i: int| 0 <= i < events@.len() implies typed_nonempty(
                        (#[trigger] events@[i])@,
                    ) by {
                        if i < before.len() - 1 {
                            assert(events@[i] == before[i]);
                        }
                    }
                } else {
                    assert(events@ =~= before);
                    KeystrokeActivity::append(events, event);
                }
            },
            None => {
                assert(views(before) =~= Seq::empty());
                KeystrokeActivity::append(events, event);
            },
        }
    }

    /// Take the live text out of `events`, leaving the settled entries.
    fn take_live(events: &mut VecDeque<KeystrokeEvent>, cursor: Option<usize>) -> (buffer: Option<
        LiveBuffer,
    >)
        requires
            ring_ok(old(events)@, cursor),
        ensures
            final(events)@ == (if cursor is Some {
                old(events)@.drop_last()
            } else {
                old(events)@
            }),
            views(final(events)@) == ring_view(old(events)@, cursor).settled(),
            model(buffer) == ring_view(old(events)@, cursor).live(),
            buffer is Some == cursor is Some,
            buffer matches Some(b) ==> old(events)@.last() is TextTyped && b@.text == old(
                events,
            )@.last()->TextTyped_0@,
    {
        broadcast use vstd::std_specs::vecdeque::group_vec_dequeue_axioms;

        let ghost before = events@;
        proof {
            if cursor is Some {
                assert(views(before).last() == before.last()@);
                assert(views(before.drop_last()) =~= views(before).drop_last());
            }
        }
        match cursor {
            Some(cursor) => {
                match events.pop_back() {
                    Some(KeystrokeEvent::TextTyped(text)) => {
                        assert(events@ =~= before.drop_last());
                        assert(typed_nonempty(before[before.len() - 1]@));
                        let buffer = LiveBuffer::with_cursor(text, cursor);
                        buffer
                    },
                    Some(other) => {
                        events.push_back(other);
                        None
                    },
                    None => None,
                }
            },
            None => None,
        }
    }

    /// Incorporate a new event into the ring.
    ///
    /// Typed text and editing keys (Backspace, Delete, Left, Right, Home,
    /// End) are applied to the live text at the tail. Without live text the
    /// editing keys are entries of their own. Everything else ends the live
    /// text and is added as an entry. An entry is merged into the one before
    /// it where the two are the same repeated key.
    pub fn push_event(&mut self, event: KeystrokeEvent)
        ensures
            final(self)@ == old(self)@.push(event@),
            old(self)@.wf(),
            final(self)@.wf(),
    {
        broadcast use vstd::std_specs::vecdeque::group_vec_dequeue_axioms;

        proof {
            use_type_invariant(&*self);
            lemma_ring_view_wf(self.events@, self.cursor);
        }
        let cursor = self.cursor;
        self.cursor = None;
        let mut events: VecDeque<KeystrokeEvent> = VecDeque::new();
        std::mem::swap(&mut self.events, &mut events);
        let ghost before = events@;
        let ghost before_view = ring_view(before, cursor);
        let buffer = KeystrokeActivity::take_live(&mut events, cursor);
        let ghost settled = events@;
        proof {
            assert forall|i: int| 0 <= i < settled.len() implies typed_nonempty(
                (#[trigger] settled[i])@,
            ) by {
                assert(settled[i] == before[i]);
            }
            lemma_edit_wf(before_view.live(), event@);
            lemma_push_wf(before_view, event@);
        }
        let (buffer, outcome) = apply_to_buffer(buffer, &event);
        let new_cursor = match outcome {
            Disposition::Absorbed => match buffer {
                Some(b) => {
                    let cursor = b.cursor();
                    let ghost b_view = b@;
                    let text = b.into_text();
                    KeystrokeActivity::append(&mut events, KeystrokeEvent::TextTyped(text));
                    proof {
                        assert(views(events@).last() == events@.last()@);
                        crate::text::lemma_char_index_of_offset(b_view.text, b_view.cursor);
                    }
                    Some(cursor)
                },
                None => None,
            },
            _ => {
                match buffer {
                    Some(b) => {
                        let text = b.into_text();
                        events.push_back(KeystrokeEvent::TextTyped(text));
                        proof {
                            let restored = events@;
                            assert(restored.len() == before.len());
                            assert(views(restored) =~= views(before)) by {
                                assert forall|i: int| 0 <= i < before.len() implies views(
                                    restored,
                                )[i] == views(before)[i] by {
                                    if i < before.len() - 1 {
                                        assert(restored[i] == before[i]);
                                    } else {
                                        assert(restored[i]@ == before[i]@);
                                    }
                                }
                            }
                            assert forall|i: int| 0 <= i < restored.len() implies typed_nonempty(
                                (#[trigger] restored[i])@,
                            ) by {
                                assert(restored[i]@ == views(restored)[i]);
                                assert(before[i]@ == views(before)[i]);
                            }
                        }
                    },
                    None => {},
                }
                KeystrokeActivity::coalesce_or_append(&mut events, event);
                None
            },
        };
        self.events = events;
        self.cursor = new_cursor;
    }
}

} // verus!
