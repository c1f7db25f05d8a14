//! The live edit buffer: one in-progress text and a cursor inside it.
//!
//! The buffer absorbs typed text and editing keys. Its model is the sequence
//! of scalars typed so far and the number of scalars before the cursor; the
//! executable buffer keeps the text as a `String` and the cursor as a byte
//! offset that always lies on a scalar boundary. A buffer is never empty: an
//! edit that removes the last scalar discards the buffer.

use crate::events::{EditControlEvent, EventView, KeystrokeEvent, NavDirection};
use crate::text::{
    byte_len, byte_length, byte_offset, char_index, lemma_char_index_of_offset,
    lemma_encode_concat, lemma_encode_split, lemma_next_boundary_is_next_scalar,
    lemma_offset_ends, lemma_offset_is_boundary, lemma_offset_monotonic,
    lemma_offset_of_char_index, lemma_prev_boundary_is_prev_scalar, next_char_boundary,
    on_boundary, prev_char_boundary,
};
use crate::words::{
    lemma_word_index_range, word_left, word_left_index, word_right, word_right_index,
};
use vstd::prelude::*;
use vstd::utf8::*;

verus! {

/// `String::insert_str`: inserts `string` at byte offset `idx`, which has to
/// lie on a character boundary; the bytes before and after `idx` keep their
/// order around the inserted ones.
pub assume_specification[ String::insert_str ](s: &mut String, idx: usize, string: &str)
    requires
        on_boundary(old(s)@, idx as int),
    ensures
        encode_utf8(final(s)@) == encode_utf8(old(s)@).subrange(0, idx as int) + encode_utf8(
            string@,
        ) + encode_utf8(old(s)@).subrange(idx as int, byte_len(old(s)@)),
;

/// `String::drain` on the byte range `start..end`, whose ends have to lie on
/// character boundaries: the range is removed and the rest keeps its order.
/// The removed scalars are dropped.
#[verifier::external_body]
fn drain_range(s: &mut String, start: usize, end: usize)
    requires
        start <= end,
        on_boundary(old(s)@, start as int),
        on_boundary(old(s)@, end as int),
    ensures
        encode_utf8(final(s)@) == encode_utf8(old(s)@).subrange(0, start as int) + encode_utf8(
            old(s)@,
        ).subrange(end as int, byte_len(old(s)@)),
{
    s.drain(start..end);
}

/// Two texts with the same encoding are the same text.
pub proof fn lemma_encode_injective(a: Seq<char>, b: Seq<char>)
    requires
        encode_utf8(a) == encode_utf8(b),
    ensures
        a == b,
{
    encode_utf8_decode_utf8(a);
    encode_utf8_decode_utf8(b);
}

/// Insert `s` into `text` at byte offset `pos`.
fn insert_at(text: &mut String, pos: usize, s: &str)
    requires
        on_boundary(old(text)@, pos as int),
    ensures
        final(text)@ == old(text)@.take(char_index(old(text)@, pos as int)) + s@ + old(text)@.skip(
            char_index(old(text)@, pos as int),
        ),
        pos + byte_len(s@) == byte_offset(
            final(text)@,
            char_index(old(text)@, pos as int) + s@.len(),
        ),
{
    let ghost before = text@;
    let ghost n = char_index(before, pos as int);
    text.insert_str(pos, s);
    proof {
        lemma_offset_of_char_index(before, pos as int);
        lemma_encode_split(before, n);
        let joined = before.take(n) + s@ + before.skip(n);
        lemma_encode_concat(before.take(n), s@);
        lemma_encode_concat(before.take(n) + s@, before.skip(n));
        lemma_encode_injective(text@, joined);
        assert(joined.take(n + s@.len()) =~= before.take(n) + s@);
    }
}

/// Remove the bytes `start..end` from `text`.
fn remove_between(text: &mut String, start: usize, end: usize)
    requires
        start <= end,
        on_boundary(old(text)@, start as int),
        on_boundary(old(text)@, end as int),
    ensures
        final(text)@ == old(text)@.take(char_index(old(text)@, start as int)) + old(text)@.skip(
            char_index(old(text)@, end as int),
        ),
        char_index(old(text)@, start as int) <= char_index(old(text)@, end as int),
        start == byte_offset(final(text)@, char_index(old(text)@, start as int)),
{
    let ghost before = text@;
    let ghost i = char_index(before, start as int);
    let ghost j = char_index(before, end as int);
    drain_range(text, start, end);
    proof {
        lemma_offset_of_char_index(before, start as int);
        lemma_offset_of_char_index(before, end as int);
        if i > j {
            lemma_offset_monotonic(before, j, i);
        }
        lemma_encode_split(before, i);
        lemma_encode_split(before, j);
        let joined = before.take(i) + before.skip(j);
        lemma_encode_concat(before.take(i), before.skip(j));
        lemma_encode_injective(text@, joined);
        assert(joined.take(i) =~= before.take(i));
    }
}

/// The model of a live buffer: its scalars and the number of scalars before
/// the cursor.
pub struct BufferView {
    pub text: Seq<char>,
    pub cursor: int,
}

impl BufferView {
    /// A buffer holds at least one scalar, and its cursor lies within it.
    pub open spec fn wf(self) -> bool {
        self.text.len() > 0 && 0 <= self.cursor <= self.text.len()
    }

    /// The buffer that typing `s` creates: the cursor stands at the end. No
    /// buffer comes of an empty text.
    pub open spec fn start(s: Seq<char>) -> Option<BufferView> {
        if s.len() == 0 {
            None
        } else {
            Some(BufferView { text: s, cursor: s.len() as int })
        }
    }

    /// Insert `s` at the cursor; the cursor moves past it.
    pub open spec fn insert(self, s: Seq<char>) -> BufferView {
        BufferView {
            text: self.text.take(self.cursor) + s + self.text.skip(self.cursor),
            cursor: self.cursor + s.len(),
        }
    }

    /// Delete the scalar that ends at the cursor. Nothing happens with the
    /// cursor at the start; the buffer is discarded when it becomes empty.
    pub open spec fn backspace(self) -> Option<BufferView> {
        if self.cursor <= 0 {
            Some(self)
        } else if self.text.len() == 1 {
            None
        } else {
            Some(BufferView { text: self.text.remove(self.cursor - 1), cursor: self.cursor - 1 })
        }
    }

    /// Delete the scalar that starts at the cursor. Nothing happens with the
    /// cursor at the end; the buffer is discarded when it becomes empty.
    pub open spec fn delete(self) -> Option<BufferView> {
        if self.cursor >= self.text.len() {
            Some(self)
        } else if self.text.len() == 1 {
            None
        } else {
            Some(BufferView { text: self.text.remove(self.cursor), cursor: self.cursor })
        }
    }

    /// Move the cursor `count` scalars to the left, or one word with `by_word`.
    pub open spec fn left(self, count: int, by_word: bool) -> BufferView {
        let cursor = if by_word {
            word_left_index(self.text, self.cursor)
        } else if count >= self.cursor {
            0
        } else {
            self.cursor - count
        };
        BufferView { text: self.text, cursor }
    }

    /// Move the cursor `count` scalars to the right, or one word with `by_word`.
    pub open spec fn right(self, count: int, by_word: bool) -> BufferView {
        let cursor = if by_word {
            word_right_index(self.text, self.cursor)
        } else if count >= self.text.len() - self.cursor {
            self.text.len() as int
        } else {
            self.cursor + count
        };
        BufferView { text: self.text, cursor }
    }

    /// Move the cursor to the start.
    pub open spec fn home(self) -> BufferView {
        BufferView { text: self.text, cursor: 0 }
    }

    /// Move the cursor to the end.
    pub open spec fn end(self) -> BufferView {
        BufferView { text: self.text, cursor: self.text.len() as int }
    }
}

/// A live text buffer with a cursor on a scalar boundary.
#[derive(Debug)]
pub struct LiveBuffer {
    text: String,
    cursor: usize,
}

impl View for LiveBuffer {
    type V = BufferView;

    closed spec fn view(&self) -> BufferView {
        BufferView { text: self.text@, cursor: char_index(self.text@, self.cursor as int) }
    }
}

/// The model of a buffer that may be absent.
pub open spec fn model(buffer: Option<LiveBuffer>) -> Option<BufferView> {
    match buffer {
        Some(b) => Some(b@),
        None => None,
    }
}

impl LiveBuffer {
    #[verifier::type_invariant]
    spec fn boundary_invariant(self) -> bool {
        self.text@.len() > 0 && on_boundary(self.text@, self.cursor as int)
    }

    /// The cursor as a byte offset into the text.
    pub closed spec fn byte_cursor(&self) -> int {
        self.cursor as int
    }

    /// The model's cursor is the scalar index of the byte cursor.
    pub proof fn lemma_cursor_index(&self)
        ensures
            self@.cursor == char_index(self@.text, self.byte_cursor()),
    {
    }

    /// Start a buffer from typed text, with the cursor at its end. An empty
    /// text gives no buffer.
    pub fn new(text: String) -> (r: Option<LiveBuffer>)
        ensures
            model(r) == BufferView::start(text@),
    {
        let len = byte_length(text.as_str());
        if text.as_str().is_empty() {
            return None;
        }
        proof {
            lemma_offset_ends(text@);
            lemma_offset_is_boundary(text@, text@.len() as int);
            lemma_char_index_of_offset(text@, text@.len() as int);
        }
        let r = LiveBuffer { text, cursor: len };
        assert(r@ == BufferView::start(text@)->0);
        Some(r)
    }

    /// Take up `text` again with the cursor at byte offset `cursor`. There is
    /// no buffer if the text is empty or the offset is not on a scalar
    /// boundary.
    pub fn with_cursor(text: String, cursor: usize) -> (r: Option<LiveBuffer>)
        ensures
            r is Some <==> text@.len() > 0 && on_boundary(text@, cursor as int),
            r matches Some(b) ==> b@.text == text@ && b.byte_cursor() == cursor && b@.cursor
                == char_index(text@, cursor as int),
    {
        if text.as_str().is_empty() || !text.as_str().is_char_boundary(cursor) {
            return None;
        }
        Some(LiveBuffer { text, cursor })
    }

    /// The text typed so far.
    pub fn text(&self) -> (s: &str)
        ensures
            s@ == self@.text,
    {
        self.text.as_str()
    }

    /// The cursor, as a byte offset into the text.
    pub fn cursor(&self) -> (c: usize)
        ensures
            c == self.byte_cursor(),
            c == byte_offset(self@.text, self@.cursor),
            on_boundary(self@.text, c as int),
            self@.wf(),
    {
        proof {
            use_type_invariant(self);
            lemma_offset_of_char_index(self.text@, self.cursor as int);
        }
        self.cursor
    }

    /// Give up the buffer and keep its text.
    pub fn into_text(self) -> (s: String)
        ensures
            s@ == self@.text,
            s@.len() > 0,
            on_boundary(s@, self.byte_cursor()),
    {
        proof {
            use_type_invariant(&self);
        }
        self.text
    }

    /// Insert `s` at the cursor and move the cursor past it.
    pub fn insert(self, s: &str) -> (r: LiveBuffer)
        ensures
            r@ == self@.insert(s@),
    {
        proof {
            use_type_invariant(&self);
        }
        let ghost before = self@;
        let LiveBuffer { text, cursor } = self;
        let mut text = text;
        insert_at(&mut text, cursor, s);
        let added = byte_length(s);
        let limit = byte_length(text.as_str());
        let ghost target = before.cursor + s@.len();
        proof {
            lemma_offset_of_char_index(before.text, cursor as int);
            lemma_offset_is_boundary(text@, target);
            lemma_char_index_of_offset(text@, target);
            assert(cursor + added <= limit);
        }
        LiveBuffer { text, cursor: cursor + added }
    }

    /// Delete the scalar before the cursor, if there is one. The buffer is
    /// gone when its last scalar is deleted.
    pub fn backspace(self) -> (r: Option<LiveBuffer>)
        ensures
            model(r) == self@.backspace(),
    {
        proof {
            use_type_invariant(&self);
            lemma_offset_of_char_index(self.text@, self.cursor as int);
        }
        let ghost before = self@;
        if self.cursor == 0 {
            proof {
                lemma_char_index_of_offset(before.text, 0);
                lemma_offset_ends(before.text);
            }
            return Some(self);
        }
        let LiveBuffer { text, cursor } = self;
        let mut text = text;
        let prev = prev_char_boundary(text.as_str(), cursor);
        proof {
            lemma_offset_ends(before.text);
            lemma_prev_boundary_is_prev_scalar(before.text, before.cursor, prev as int);
            lemma_char_index_of_offset(before.text, before.cursor - 1);
        }
        remove_between(&mut text, prev, cursor);
        proof {
            assert(text@ =~= before.text.remove(before.cursor - 1));
        }
        if text.as_str().is_empty() {
            None
        } else {
            proof {
                lemma_offset_is_boundary(text@, before.cursor - 1);
                lemma_char_index_of_offset(text@, before.cursor - 1);
            }
            Some(LiveBuffer { text, cursor: prev })
        }
    }

    /// Delete the scalar at the cursor, if there is one. The buffer is gone
    /// when its last scalar is deleted.
    pub fn delete(self) -> (r: Option<LiveBuffer>)
        ensures
            model(r) == self@.delete(),
    {
        proof {
            use_type_invariant(&self);
            lemma_offset_of_char_index(self.text@, self.cursor as int);
        }
        let ghost before = self@;
        let len = byte_length(self.text.as_str());
        proof {
            lemma_offset_ends(before.text);
            if before.cursor < before.text.len() {
                lemma_offset_monotonic(before.text, before.cursor, before.text.len() as int);
            }
        }
        if self.cursor >= len {
            return Some(self);
        }
        let LiveBuffer { text, cursor } = self;
        let mut text = text;
        let next = next_char_boundary(text.as_str(), cursor);
        proof {
            lemma_next_boundary_is_next_scalar(before.text, before.cursor, next as int);
            lemma_char_index_of_offset(before.text, before.cursor + 1);
        }
        remove_between(&mut text, cursor, next);
        proof {
            assert(text@ =~= before.text.remove(before.cursor));
        }
        if text.as_str().is_empty() {
            None
        } else {
            proof {
                lemma_offset_is_boundary(text@, before.cursor);
                lemma_char_index_of_offset(text@, before.cursor);
            }
            Some(LiveBuffer { text, cursor })
        }
    }

    /// Move the cursor left by `count` scalars, or by one word with `by_word`.
    pub fn move_left(self, count: usize, by_word: bool) -> (r: LiveBuffer)
        ensures
            r@ == self@.left(count as int, by_word),
    {
        proof {
            use_type_invariant(&self);
            lemma_offset_of_char_index(self.text@, self.cursor as int);
        }
        let ghost before = self@;
        let LiveBuffer { text, cursor } = self;
        if by_word {
            let target = word_left(text.as_str(), cursor);
            proof {
                lemma_word_index_range(before.text, before.cursor);
                let n = word_left_index(before.text, before.cursor);
                lemma_offset_is_boundary(before.text, n);
                lemma_char_index_of_offset(before.text, n);
            }
            return LiveBuffer { text, cursor: target };
        }
        let mut pos: usize = cursor;
        let mut moved: usize = 0;
        while moved < count && pos > 0
            invariant
                text@ == before.text,
                before.wf(),
                0 <= moved <= count,
                moved <= before.cursor,
                pos == byte_offset(before.text, before.cursor - moved),
            decreases count - moved,
        {
            proof {
                lemma_offset_ends(before.text);
            }
            let prev = prev_char_boundary(text.as_str(), pos);
            proof {
                lemma_prev_boundary_is_prev_scalar(
                    before.text,
                    before.cursor - moved,
                    prev as int,
                );
            }
            pos = prev;
            moved += 1;
        }
        proof {
            let n = before.cursor - moved;
            lemma_offset_ends(before.text);
            if n > 0 {
                lemma_offset_monotonic(before.text, 0, n);
            }
            lemma_offset_is_boundary(before.text, n);
            lemma_char_index_of_offset(before.text, n);
        }
        LiveBuffer { text, cursor: pos }
    }

    /// Move the cursor right by `count` scalars, or by one word with `by_word`.
    pub fn move_right(self, count: usize, by_word: bool) -> (r: LiveBuffer)
        ensures
            r@ == self@.right(count as int, by_word),
    {
        proof {
            use_type_invariant(&self);
            lemma_offset_of_char_index(self.text@, self.cursor as int);
        }
        let ghost before = self@;
        let LiveBuffer { text, cursor } = self;
        if by_word {
            let target = word_right(text.as_str(), cursor);
            proof {
                lemma_word_index_range(before.text, before.cursor);
                let n = word_right_index(before.text, before.cursor);
                lemma_offset_is_boundary(before.text, n);
                lemma_char_index_of_offset(before.text, n);
            }
            return LiveBuffer { text, cursor: target };
        }
        let len = byte_length(text.as_str());
        let mut pos: usize = cursor;
        let mut moved: usize = 0;
        while moved < count && pos < len
            invariant
                text@ == before.text,
                before.wf(),
                len == byte_len(before.text),
                0 <= moved <= count,
                before.cursor + moved <= before.text.len(),
                pos == byte_offset(before.text, before.cursor + moved),
            decreases count - moved,
        {
            proof {
                lemma_offset_ends(before.text);
            }
            let next = next_char_boundary(text.as_str(), pos);
            proof {
                lemma_next_boundary_is_next_scalar(
                    before.text,
                    before.cursor + moved,
                    next as int,
                );
            }
            pos = next;
            moved += 1;
        }
        proof {
            let n = before.cursor + moved;
            lemma_offset_ends(before.text);
            if n < before.text.len() {
                lemma_offset_monotonic(before.text, n, before.text.len() as int);
            }
            lemma_offset_is_boundary(before.text, n);
            lemma_char_index_of_offset(before.text, n);
        }
        LiveBuffer { text, cursor: pos }
    }

    /// Move the cursor to the start of the text.
    pub fn home(self) -> (r: LiveBuffer)
        ensures
            r@ == self@.home(),
    {
        proof {
            use_type_invariant(&self);
        }
        let LiveBuffer { text, .. } = self;
        proof {
            lemma_offset_ends(text@);
            lemma_offset_is_boundary(text@, 0);
            lemma_char_index_of_offset(text@, 0);
        }
        LiveBuffer { text, cursor: 0 }
    }

    /// Move the cursor to the end of the text.
    pub fn end(self) -> (r: LiveBuffer)
        ensures
            r@ == self@.end(),
    {
        proof {
            use_type_invariant(&self);
        }
        let LiveBuffer { text, .. } = self;
        let len = byte_length(text.as_str());
        proof {
            lemma_offset_ends(text@);
            lemma_offset_is_boundary(text@, text@.len() as int);
            lemma_char_index_of_offset(text@, text@.len() as int);
        }
        LiveBuffer { text, cursor: len }
    }
}


/// What a live buffer makes of an event.
#[derive(Debug, Clone, Copy, PartialEq, Eq, Structural)]
pub enum Disposition {
    /// The event edits the buffer, or starts one.
    Absorbed,
    /// An editing key that finds no buffer to edit.
    PassThrough,
    /// The event ends the buffer.
    Seal,
}

/// How an event is treated, given whether a buffer is live: text is always
/// absorbed; Backspace, Delete, Left, Right, Home and End edit a live buffer
/// and pass through without one; everything else seals.
pub open spec fn disposition(has_buffer: bool, event: EventView) -> Disposition {
    match event {
        EventView::TextTyped(_) => Disposition::Absorbed,
        EventView::EditControl(EditControlEvent::Backspace { .. })
        | EventView::EditControl(EditControlEvent::Delete { .. }) => if has_buffer {
            Disposition::Absorbed
        } else {
            Disposition::PassThrough
        },
        EventView::Navigation(nav) => match nav.direction {
            NavDirection::Left | NavDirection::Right | NavDirection::Home | NavDirection::End => {
                if has_buffer {
                    Disposition::Absorbed
                } else {
                    Disposition::PassThrough
                }
            },
            _ => Disposition::Seal,
        },
        _ => Disposition::Seal,
    }
}

/// The buffer after `event`, for an event that does not seal: typed text is
/// inserted at the cursor (or starts a buffer), Backspace and Delete remove
/// one scalar, Left, Right, Home and End move the cursor. Any other event
/// leaves the buffer as it is.
pub open spec fn edit(state: Option<BufferView>, event: EventView) -> Option<BufferView> {
    match state {
        None => match event {
            EventView::TextTyped(s) => BufferView::start(s),
            _ => None,
        },
        Some(b) => match event {
            EventView::TextTyped(s) => Some(b.insert(s)),
            EventView::EditControl(EditControlEvent::Backspace { .. }) => b.backspace(),
            EventView::EditControl(EditControlEvent::Delete { .. }) => b.delete(),
            EventView::Navigation(nav) => match nav.direction {
                NavDirection::Left => Some(b.left(nav.count as int, nav.with_ctrl)),
                NavDirection::Right => Some(b.right(nav.count as int, nav.with_ctrl)),
                NavDirection::Home => Some(b.home()),
                NavDirection::End => Some(b.end()),
                _ => state,
            },
            _ => state,
        },
    }
}

/// Whether `event` is one that edits text: typed text, Backspace, Delete,
/// Left, Right, Home or End. No such event seals a buffer.
pub open spec fn is_editing(event: EventView) -> bool {
    disposition(true, event) == Disposition::Absorbed
}

/// The buffer that comes of applying each of `events` in turn, starting
/// without a buffer.
pub open spec fn replay(events: Seq<EventView>) -> Option<BufferView>
    decreases events.len(),
{
    if events.len() == 0 {
        None
    } else {
        edit(replay(events.drop_last()), events.last())
    }
}

/// Replaying editing events gives a well-formed buffer or none.
pub proof fn lemma_replay_wf(events: Seq<EventView>)
    ensures
        replay(events) matches Some(b) ==> b.wf(),
    decreases events.len(),
{
    if events.len() > 0 {
        lemma_replay_wf(events.drop_last());
        lemma_edit_wf(replay(events.drop_last()), events.last());
    }
}

/// An edit keeps a buffer well formed.
pub proof fn lemma_edit_wf(state: Option<BufferView>, event: EventView)
    requires
        state matches Some(b) ==> b.wf(),
    ensures
        edit(state, event) matches Some(b) ==> b.wf(),
{
    if let Some(b) = state {
        lemma_word_index_range(b.text, b.cursor);
    }
}

/// Apply `event` to the buffer, if it is one that edits; say how the event
/// is to be treated. A buffer that the event seals or passes by comes back
/// unchanged.
pub fn apply_to_buffer(buffer: Option<LiveBuffer>, event: &KeystrokeEvent) -> (r: (
    Option<LiveBuffer>,
    Disposition,
))
    ensures
        r.1 == disposition(buffer is Some, event@),
        model(r.0) == edit(model(buffer), event@),
        r.1 != Disposition::Absorbed ==> r.0 == buffer,
{
    match event {
        KeystrokeEvent::TextTyped(incoming) => {
            let next = match buffer {
                Some(b) => Some(b.insert(incoming.as_str())),
                None => LiveBuffer::new(incoming.clone()),
            };
            (next, Disposition::Absorbed)
        },
        KeystrokeEvent::EditControl(EditControlEvent::Backspace { .. }) => match buffer {
            Some(b) => (b.backspace(), Disposition::Absorbed),
            None => (None, Disposition::PassThrough),
        },
        KeystrokeEvent::EditControl(EditControlEvent::Delete { .. }) => match buffer {
            Some(b) => (b.delete(), Disposition::Absorbed),
            None => (None, Disposition::PassThrough),
        },
        KeystrokeEvent::Navigation(nav) => match nav.direction {
            NavDirection::Left => match buffer {
                Some(b) => (Some(b.move_left(nav.count, nav.with_ctrl)), Disposition::Absorbed),
                None => (None, Disposition::PassThrough),
            },
            NavDirection::Right => match buffer {
                Some(b) => (Some(b.move_right(nav.count, nav.with_ctrl)), Disposition::Absorbed),
                None => (None, Disposition::PassThrough),
            },
            NavDirection::Home => match buffer {
                Some(b) => (Some(b.home()), Disposition::Absorbed),
                None => (None, Disposition::PassThrough),
            },
            NavDirection::End => match buffer {
                Some(b) => (Some(b.end()), Disposition::Absorbed),
                None => (None, Disposition::PassThrough),
            },
            _ => (buffer, Disposition::Seal),
        },
        _ => (buffer, Disposition::Seal),
    }
}

} // verus!
