//! The MessagePack encoding of events and log entries.
//!
//! A struct is an array of its fields in the order of their declaration.
//! A variant without fields is its name; a variant with one unnamed field
//! is a one-entry map from its name to the field; a variant with named
//! fields is a one-entry map from its name to the array of the fields. A
//! scalar is the text that holds it alone. A log entry is the array of its
//! event and its timestamp.

use crate::codec::{
    dec_bool, dec_count, dec_head, dec_mark, dec_optional_text, dec_text, dec_u64, dec_u8,
    enc_bool, enc_count, enc_keyed, enc_mark, enc_optional_text, enc_text, enc_u64, enc_u8,
    enc_unit, fits, holds_at, lemma_bool_round_trip, lemma_bool_sound, lemma_byte_len_bound,
    lemma_count_round_trip, lemma_count_sound, lemma_head_sound, lemma_holds_split,
    lemma_keyed_round_trip, lemma_mark_round_trip, lemma_mark_sound,
    lemma_optional_text_round_trip, lemma_optional_text_sound, lemma_subrange_join,
    lemma_text_round_trip, lemma_text_sound, lemma_u64_round_trip, lemma_u64_sound,
    lemma_u8_round_trip, lemma_u8_sound, lemma_unit_round_trip, put_bool, put_count, put_keyed,
    put_mark, put_optional_text, put_text, put_u64, put_u8, put_unit, read_bool, read_count,
    read_head, read_mark, read_optional_text, read_text, read_u64, read_u8, same_text, text_fits,
    ARRAY_OF_1, ARRAY_OF_2, ARRAY_OF_4, ARRAY_OF_5,
};
use crate::event_log::{LogEntry, LogEntryView};
use crate::events::{
    EditControlEvent, EventKind, EventView, KeystrokeEvent, NavDirection, NavigationEvent,
    PaneFocusedEvent, PaneFocusedView, ShortcutEvent, ShortcutKey, SystemKeyEvent,
};
use crate::text::scalar_text;
use vstd::prelude::*;
use vstd::string::StrSliceExecFns;

verus! {

/// The name of a direction.
pub open spec fn direction_name(d: NavDirection) -> Seq<char> {
    match d {
        NavDirection::Left => "Left"@,
        NavDirection::Right => "Right"@,
        NavDirection::Up => "Up"@,
        NavDirection::Down => "Down"@,
        NavDirection::Home => "Home"@,
        NavDirection::End => "End"@,
        NavDirection::PageUp => "PageUp"@,
        NavDirection::PageDown => "PageDown"@,
    }
}

/// The direction with the name `name`.
pub open spec fn direction_of_name(name: Seq<char>) -> Option<NavDirection> {
    if name == "Left"@ {
        Some(NavDirection::Left)
    } else if name == "Right"@ {
        Some(NavDirection::Right)
    } else if name == "Up"@ {
        Some(NavDirection::Up)
    } else if name == "Down"@ {
        Some(NavDirection::Down)
    } else if name == "Home"@ {
        Some(NavDirection::Home)
    } else if name == "End"@ {
        Some(NavDirection::End)
    } else if name == "PageUp"@ {
        Some(NavDirection::PageUp)
    } else if name == "PageDown"@ {
        Some(NavDirection::PageDown)
    } else {
        None
    }
}

/// The name of a system key.
pub open spec fn system_key_name(k: SystemKeyEvent) -> Seq<char> {
    match k {
        SystemKeyEvent::CapsLock => "CapsLock"@,
        SystemKeyEvent::ScrollLock => "ScrollLock"@,
        SystemKeyEvent::NumLock => "NumLock"@,
        SystemKeyEvent::PrintScreen => "PrintScreen"@,
        SystemKeyEvent::Pause => "Pause"@,
        SystemKeyEvent::Menu => "Menu"@,
    }
}

/// The system key with the name `name`.
pub open spec fn system_key_of_name(name: Seq<char>) -> Option<SystemKeyEvent> {
    if name == "CapsLock"@ {
        Some(SystemKeyEvent::CapsLock)
    } else if name == "ScrollLock"@ {
        Some(SystemKeyEvent::ScrollLock)
    } else if name == "NumLock"@ {
        Some(SystemKeyEvent::NumLock)
    } else if name == "PrintScreen"@ {
        Some(SystemKeyEvent::PrintScreen)
    } else if name == "Pause"@ {
        Some(SystemKeyEvent::Pause)
    } else if name == "Menu"@ {
        Some(SystemKeyEvent::Menu)
    } else {
        None
    }
}

/// The name of a shortcut key's variant.
pub open spec fn key_name(k: ShortcutKey) -> Seq<char> {
    match k {
        ShortcutKey::Char(_) => "Char"@,
        ShortcutKey::Enter => "Enter"@,
        ShortcutKey::Tab => "Tab"@,
        ShortcutKey::Backspace => "Backspace"@,
        ShortcutKey::Delete => "Delete"@,
        ShortcutKey::Esc => "Esc"@,
        ShortcutKey::Insert => "Insert"@,
        ShortcutKey::Left => "Left"@,
        ShortcutKey::Right => "Right"@,
        ShortcutKey::Up => "Up"@,
        ShortcutKey::Down => "Down"@,
        ShortcutKey::Home => "Home"@,
        ShortcutKey::End => "End"@,
        ShortcutKey::PageUp => "PageUp"@,
        ShortcutKey::PageDown => "PageDown"@,
        ShortcutKey::F(_) => "F"@,
    }
}

/// The shortcut key without a field that has the name `name`.
pub open spec fn plain_key_of_name(name: Seq<char>) -> Option<ShortcutKey> {
    if name == "Enter"@ {
        Some(ShortcutKey::Enter)
    } else if name == "Tab"@ {
        Some(ShortcutKey::Tab)
    } else if name == "Backspace"@ {
        Some(ShortcutKey::Backspace)
    } else if name == "Delete"@ {
        Some(ShortcutKey::Delete)
    } else if name == "Esc"@ {
        Some(ShortcutKey::Esc)
    } else if name == "Insert"@ {
        Some(ShortcutKey::Insert)
    } else if name == "Left"@ {
        Some(ShortcutKey::Left)
    } else if name == "Right"@ {
        Some(ShortcutKey::Right)
    } else if name == "Up"@ {
        Some(ShortcutKey::Up)
    } else if name == "Down"@ {
        Some(ShortcutKey::Down)
    } else if name == "Home"@ {
        Some(ShortcutKey::Home)
    } else if name == "End"@ {
        Some(ShortcutKey::End)
    } else if name == "PageUp"@ {
        Some(ShortcutKey::PageUp)
    } else if name == "PageDown"@ {
        Some(ShortcutKey::PageDown)
    } else {
        None
    }
}

/// The name of an editing control key's variant.
pub open spec fn edit_control_name(e: EditControlEvent) -> Seq<char> {
    match e {
        EditControlEvent::Enter => "Enter"@,
        EditControlEvent::Tab => "Tab"@,
        EditControlEvent::Backspace { .. } => "Backspace"@,
        EditControlEvent::Delete { .. } => "Delete"@,
        EditControlEvent::Insert => "Insert"@,
    }
}

/// The names of the directions are short, and no two directions share one.
pub proof fn lemma_direction_names(d: NavDirection)
    ensures
        direction_of_name(direction_name(d)) == Some(d),
        text_fits(direction_name(d)),
{
    reveal_strlit("Left");
    assert("Left"@.len() == 4);
    assert("Left"@[0] == 'L');
    reveal_strlit("Right");
    assert("Right"@.len() == 5);
    assert("Right"@[0] == 'R');
    reveal_strlit("Up");
    assert("Up"@.len() == 2);
    assert("Up"@[0] == 'U');
    reveal_strlit("Down");
    assert("Down"@.len() == 4);
    assert("Down"@[0] == 'D');
    reveal_strlit("Home");
    assert("Home"@.len() == 4);
    assert("Home"@[0] == 'H');
    reveal_strlit("End");
    assert("End"@.len() == 3);
    assert("End"@[0] == 'E');
    assert("End"@[1] == 'n');
    reveal_strlit("PageUp");
    assert("PageUp"@.len() == 6);
    assert("PageUp"@[0] == 'P');
    reveal_strlit("PageDown");
    assert("PageDown"@.len() == 8);
    assert("PageDown"@[0] == 'P');
    lemma_byte_len_bound(direction_name(d));
}

/// The names of the system keys are short, and no two keys share one.
pub proof fn lemma_system_key_names(k: SystemKeyEvent)
    ensures
        system_key_of_name(system_key_name(k)) == Some(k),
        text_fits(system_key_name(k)),
{
    reveal_strlit("CapsLock");
    assert("CapsLock"@.len() == 8);
    assert("CapsLock"@[0] == 'C');
    reveal_strlit("ScrollLock");
    assert("ScrollLock"@.len() == 10);
    assert("ScrollLock"@[0] == 'S');
    reveal_strlit("NumLock");
    assert("NumLock"@.len() == 7);
    assert("NumLock"@[0] == 'N');
    reveal_strlit("PrintScreen");
    assert("PrintScreen"@.len() == 11);
    assert("PrintScreen"@[0] == 'P');
    reveal_strlit("Pause");
    assert("Pause"@.len() == 5);
    assert("Pause"@[0] == 'P');
    reveal_strlit("Menu");
    assert("Menu"@.len() == 4);
    assert("Menu"@[0] == 'M');
    lemma_byte_len_bound(system_key_name(k));
}

/// The names of the shortcut keys are short, and no two variants share
/// one.
pub proof fn lemma_key_names(k: ShortcutKey)
    ensures
        text_fits(key_name(k)),
        k is Char || k is F ==> plain_key_of_name(key_name(k)) is None,
        !(k is Char || k is F) ==> plain_key_of_name(key_name(k)) == Some(k),
        "Char"@ != "F"@,
{
    reveal_strlit("Char");
    assert("Char"@.len() == 4);
    assert("Char"@[0] == 'C');
    reveal_strlit("Enter");
    assert("Enter"@.len() == 5);
    assert("Enter"@[0] == 'E');
    reveal_strlit("Tab");
    assert("Tab"@.len() == 3);
    assert("Tab"@[0] == 'T');
    reveal_strlit("Backspace");
    assert("Backspace"@.len() == 9);
    assert("Backspace"@[0] == 'B');
    reveal_strlit("Delete");
    assert("Delete"@.len() == 6);
    assert("Delete"@[0] == 'D');
    reveal_strlit("Esc");
    assert("Esc"@.len() == 3);
    assert("Esc"@[0] == 'E');
    assert("Esc"@[1] == 's');
    reveal_strlit("Insert");
    assert("Insert"@.len() == 6);
    assert("Insert"@[0] == 'I');
    reveal_strlit("Left");
    assert("Left"@.len() == 4);
    assert("Left"@[0] == 'L');
    reveal_strlit("Right");
    assert("Right"@.len() == 5);
    assert("Right"@[0] == 'R');
    reveal_strlit("Up");
    assert("Up"@.len() == 2);
    assert("Up"@[0] == 'U');
    reveal_strlit("Down");
    assert("Down"@.len() == 4);
    assert("Down"@[0] == 'D');
    reveal_strlit("Home");
    assert("Home"@.len() == 4);
    assert("Home"@[0] == 'H');
    reveal_strlit("End");
    assert("End"@.len() == 3);
    assert("End"@[0] == 'E');
    assert("End"@[1] == 'n');
    reveal_strlit("PageUp");
    assert("PageUp"@.len() == 6);
    assert("PageUp"@[0] == 'P');
    reveal_strlit("PageDown");
    assert("PageDown"@.len() == 8);
    assert("PageDown"@[0] == 'P');
    reveal_strlit("F");
    assert("F"@.len() == 1);
    assert("F"@[0] == 'F');
    lemma_byte_len_bound(key_name(k));
}

/// The names of the editing control keys are short, and no two variants
/// share one.
pub proof fn lemma_edit_control_names(e: EditControlEvent)
    ensures
        text_fits(edit_control_name(e)),
        "Enter"@ != "Tab"@,
        "Enter"@ != "Insert"@,
        "Tab"@ != "Insert"@,
        "Backspace"@ != "Delete"@,
{
    reveal_strlit("Enter");
    assert("Enter"@.len() == 5);
    assert("Enter"@[0] == 'E');
    reveal_strlit("Tab");
    assert("Tab"@.len() == 3);
    assert("Tab"@[0] == 'T');
    reveal_strlit("Backspace");
    assert("Backspace"@.len() == 9);
    assert("Backspace"@[0] == 'B');
    reveal_strlit("Delete");
    assert("Delete"@.len() == 6);
    assert("Delete"@[0] == 'D');
    reveal_strlit("Insert");
    assert("Insert"@.len() == 6);
    assert("Insert"@[0] == 'I');
    lemma_byte_len_bound(edit_control_name(e));
}

/// The kind of event with the name `name`.
pub open spec fn kind_of_name(name: Seq<char>) -> Option<EventKind> {
    if name == "TextTyped"@ {
        Some(EventKind::TextTyped)
    } else if name == "Shortcut"@ {
        Some(EventKind::Shortcut)
    } else if name == "Navigation"@ {
        Some(EventKind::Navigation)
    } else if name == "EditControl"@ {
        Some(EventKind::EditControl)
    } else if name == "Escape"@ {
        Some(EventKind::Escape)
    } else if name == "FunctionKey"@ {
        Some(EventKind::FunctionKey)
    } else if name == "SystemKey"@ {
        Some(EventKind::SystemKey)
    } else if name == "PaneFocused"@ {
        Some(EventKind::PaneFocused)
    } else {
        None
    }
}

/// The names of the kinds of event are short, and no two kinds share one.
pub proof fn lemma_kind_names(kind: EventKind)
    ensures
        kind_of_name(kind.spec_name()) == Some(kind),
        text_fits(kind.spec_name()),
{
    reveal_strlit("TextTyped");
    assert("TextTyped"@.len() == 9);
    assert("TextTyped"@[0] == 'T');
    reveal_strlit("Shortcut");
    assert("Shortcut"@.len() == 8);
    assert("Shortcut"@[0] == 'S');
    reveal_strlit("Navigation");
    assert("Navigation"@.len() == 10);
    assert("Navigation"@[0] == 'N');
    reveal_strlit("EditControl");
    assert("EditControl"@.len() == 11);
    assert("EditControl"@[0] == 'E');
    reveal_strlit("Escape");
    assert("Escape"@.len() == 6);
    assert("Escape"@[0] == 'E');
    reveal_strlit("FunctionKey");
    assert("FunctionKey"@.len() == 11);
    assert("FunctionKey"@[0] == 'F');
    reveal_strlit("SystemKey");
    assert("SystemKey"@.len() == 9);
    assert("SystemKey"@[0] == 'S');
    reveal_strlit("PaneFocused");
    assert("PaneFocused"@.len() == 11);
    assert("PaneFocused"@[0] == 'P');
    lemma_byte_len_bound(kind.spec_name());
}

/// The encoding of a direction: its name.
pub open spec fn enc_direction(d: NavDirection) -> Seq<u8> {
    enc_unit(direction_name(d))
}

/// The direction at `at`.
pub open spec fn dec_direction(bytes: Seq<u8>, at: int) -> Option<(NavDirection, int)> {
    match dec_head(bytes, at) {
        Some((keyed, name, next)) => match direction_of_name(name) {
            Some(d) => if keyed {
                None
            } else {
                Some((d, next))
            },
            None => None,
        },
        None => None,
    }
}

/// The encoding of a system key: its name.
pub open spec fn enc_system_key(k: SystemKeyEvent) -> Seq<u8> {
    enc_unit(system_key_name(k))
}

/// The system key at `at`.
pub open spec fn dec_system_key(bytes: Seq<u8>, at: int) -> Option<(SystemKeyEvent, int)> {
    match dec_head(bytes, at) {
        Some((keyed, name, next)) => match system_key_of_name(name) {
            Some(k) => if keyed {
                None
            } else {
                Some((k, next))
            },
            None => None,
        },
        None => None,
    }
}

/// The encoding of a shortcut key: its name, or a map from `Char` to the
/// text of the scalar, or a map from `F` to the number.
pub open spec fn enc_key(k: ShortcutKey) -> Seq<u8> {
    match k {
        ShortcutKey::Char(c) => enc_keyed("Char"@) + enc_text(seq![c]),
        ShortcutKey::F(n) => enc_keyed("F"@) + enc_u8(n),
        _ => enc_unit(key_name(k)),
    }
}

/// The shortcut key at `at`.
pub open spec fn dec_key(bytes: Seq<u8>, at: int) -> Option<(ShortcutKey, int)> {
    match dec_head(bytes, at) {
        Some((keyed, name, start)) => if !keyed {
            match plain_key_of_name(name) {
                Some(k) => Some((k, start)),
                None => None,
            }
        } else if name == "Char"@ {
            match dec_text(bytes, start) {
                Some((t, next)) => if t.len() == 1 {
                    Some((ShortcutKey::Char(t[0]), next))
                } else {
                    None
                },
                None => None,
            }
        } else if name == "F"@ {
            match dec_u8(bytes, start) {
                Some((n, next)) => Some((ShortcutKey::F(n), next)),
                None => None,
            }
        } else {
            None
        },
        None => None,
    }
}

/// The encoding of a shortcut: the array of the key and the four
/// modifiers.
pub open spec fn enc_shortcut(s: ShortcutEvent) -> Seq<u8> {
    enc_mark(ARRAY_OF_5) + enc_key(s.key) + enc_bool(s.ctrl) + enc_bool(s.alt) + enc_bool(
        s.shift,
    ) + enc_bool(s.super_key)
}

/// The shortcut at `at`.
pub open spec fn dec_shortcut(bytes: Seq<u8>, at: int) -> Option<(ShortcutEvent, int)> {
    match dec_mark(bytes, at, ARRAY_OF_5) {
        Some(pos0) => match dec_key(bytes, pos0) {
            Some((key, pos1)) => match dec_bool(bytes, pos1) {
                Some((ctrl, pos2)) => match dec_bool(bytes, pos2) {
                    Some((alt, pos3)) => match dec_bool(bytes, pos3) {
                        Some((shift, pos4)) => match dec_bool(bytes, pos4) {
                            Some((super_key, pos5)) => Some(
                                (ShortcutEvent { key, ctrl, alt, shift, super_key }, pos5),
                            ),
                            None => None,
                        },
                        None => None,
                    },
                    None => None,
                },
                None => None,
            },
            None => None,
        },
        None => None,
    }
}

/// The encoding of a navigation key: the array of direction, count,
/// Shift and Ctrl.
pub open spec fn enc_navigation(n: NavigationEvent) -> Seq<u8> {
    enc_mark(ARRAY_OF_4) + enc_direction(n.direction) + enc_count(n.count) + enc_bool(
        n.with_shift,
    ) + enc_bool(n.with_ctrl)
}

/// The navigation key at `at`.
pub open spec fn dec_navigation(bytes: Seq<u8>, at: int) -> Option<(NavigationEvent, int)> {
    match dec_mark(bytes, at, ARRAY_OF_4) {
        Some(pos0) => match dec_direction(bytes, pos0) {
            Some((direction, pos1)) => match dec_count(bytes, pos1) {
                Some((count, pos2)) => match dec_bool(bytes, pos2) {
                    Some((with_shift, pos3)) => match dec_bool(bytes, pos3) {
                        Some((with_ctrl, pos4)) => Some(
                            (NavigationEvent { direction, count, with_shift, with_ctrl }, pos4),
                        ),
                        None => None,
                    },
                    None => None,
                },
                None => None,
            },
            None => None,
        },
        None => None,
    }
}

/// The encoding of a repeat count that is the one field of a variant: the
/// array of the count.
pub open spec fn enc_repeat(count: usize) -> Seq<u8> {
    enc_mark(ARRAY_OF_1) + enc_count(count)
}

/// The repeat count at `at`.
pub open spec fn dec_repeat(bytes: Seq<u8>, at: int) -> Option<(usize, int)> {
    match dec_mark(bytes, at, ARRAY_OF_1) {
        Some(start) => dec_count(bytes, start),
        None => None,
    }
}

/// The encoding of an editing control key: its name, or a map from its
/// name to the array of the count of a Backspace or Delete.
pub open spec fn enc_edit_control(e: EditControlEvent) -> Seq<u8> {
    match e {
        EditControlEvent::Backspace { count } => enc_keyed("Backspace"@) + enc_repeat(count),
        EditControlEvent::Delete { count } => enc_keyed("Delete"@) + enc_repeat(count),
        _ => enc_unit(edit_control_name(e)),
    }
}

/// The editing control key at `at`.
pub open spec fn dec_edit_control(bytes: Seq<u8>, at: int) -> Option<(EditControlEvent, int)> {
    match dec_head(bytes, at) {
        Some((keyed, name, start)) => if !keyed {
            if name == "Enter"@ {
                Some((EditControlEvent::Enter, start))
            } else if name == "Tab"@ {
                Some((EditControlEvent::Tab, start))
            } else if name == "Insert"@ {
                Some((EditControlEvent::Insert, start))
            } else {
                None
            }
        } else if name == "Backspace"@ {
            match dec_repeat(bytes, start) {
                Some((count, next)) => Some((EditControlEvent::Backspace { count }, next)),
                None => None,
            }
        } else if name == "Delete"@ {
            match dec_repeat(bytes, start) {
                Some((count, next)) => Some((EditControlEvent::Delete { count }, next)),
                None => None,
            }
        } else {
            None
        },
        None => None,
    }
}

/// The encoding of a pane focus: the array of tab name, title, command
/// and plugin flag.
pub open spec fn enc_pane(p: PaneFocusedView) -> Seq<u8> {
    enc_mark(ARRAY_OF_4) + enc_optional_text(p.tab_name) + enc_text(p.pane_title)
        + enc_optional_text(p.command) + enc_bool(p.is_plugin)
}

/// The pane focus at `at`.
pub open spec fn dec_pane(bytes: Seq<u8>, at: int) -> Option<(PaneFocusedView, int)> {
    match dec_mark(bytes, at, ARRAY_OF_4) {
        Some(pos0) => match dec_optional_text(bytes, pos0) {
            Some((tab_name, pos1)) => match dec_text(bytes, pos1) {
                Some((pane_title, pos2)) => match dec_optional_text(bytes, pos2) {
                    Some((command, pos3)) => match dec_bool(bytes, pos3) {
                        Some((is_plugin, pos4)) => Some(
                            (PaneFocusedView { tab_name, pane_title, command, is_plugin }, pos4),
                        ),
                        None => None,
                    },
                    None => None,
                },
                None => None,
            },
            None => None,
        },
        None => None,
    }
}

/// Every text of the event has a length that can be written down.
pub open spec fn event_fits(e: EventView) -> bool {
    match e {
        EventView::TextTyped(t) => text_fits(t),
        EventView::PaneFocused(p) => {
            &&& p.tab_name matches Some(t) ==> text_fits(t)
            &&& text_fits(p.pane_title)
            &&& p.command matches Some(t) ==> text_fits(t)
        },
        _ => true,
    }
}

/// What an event holds, encoded: the value that its name is mapped to.
pub open spec fn enc_event_body(e: EventView) -> Seq<u8> {
    match e {
        EventView::TextTyped(t) => enc_text(t),
        EventView::Shortcut(s) => enc_shortcut(s),
        EventView::Navigation(n) => enc_navigation(n),
        EventView::EditControl(c) => enc_edit_control(c),
        EventView::Escape => Seq::empty(),
        EventView::FunctionKey(n) => enc_u8(n),
        EventView::SystemKey(k) => enc_system_key(k),
        EventView::PaneFocused(p) => enc_pane(p),
    }
}

/// The encoding of an event: the name of its kind for `Escape`, which
/// holds nothing, and else a map from that name to what the event holds.
pub open spec fn enc_event(e: EventView) -> Seq<u8> {
    if e is Escape {
        enc_unit(e.kind().spec_name())
    } else {
        enc_keyed(e.kind().spec_name()) + enc_event_body(e)
    }
}

/// The event at `at`.
pub open spec fn dec_event(bytes: Seq<u8>, at: int) -> Option<(EventView, int)> {
    match dec_head(bytes, at) {
        Some((keyed, name, start)) => match kind_of_name(name) {
            Some(kind) => if keyed == (kind is Escape) {
                None
            } else {
                dec_event_of(bytes, start, kind)
            },
            None => None,
        },
        None => None,
    }
}

/// The event of the kind `kind` whose head ends at `start`.
pub open spec fn dec_event_of(bytes: Seq<u8>, start: int, kind: EventKind) -> Option<
    (EventView, int),
> {
    match kind {
        EventKind::TextTyped => match dec_text(bytes, start) {
            Some((t, next)) => Some((EventView::TextTyped(t), next)),
            None => None,
        },
        EventKind::Shortcut => match dec_shortcut(bytes, start) {
            Some((s, next)) => Some((EventView::Shortcut(s), next)),
            None => None,
        },
        EventKind::Navigation => match dec_navigation(bytes, start) {
            Some((n, next)) => Some((EventView::Navigation(n), next)),
            None => None,
        },
        EventKind::EditControl => match dec_edit_control(bytes, start) {
            Some((c, next)) => Some((EventView::EditControl(c), next)),
            None => None,
        },
        EventKind::Escape => Some((EventView::Escape, start)),
        EventKind::FunctionKey => match dec_u8(bytes, start) {
            Some((n, next)) => Some((EventView::FunctionKey(n), next)),
            None => None,
        },
        EventKind::SystemKey => match dec_system_key(bytes, start) {
            Some((k, next)) => Some((EventView::SystemKey(k), next)),
            None => None,
        },
        EventKind::PaneFocused => match dec_pane(bytes, start) {
            Some((p, next)) => Some((EventView::PaneFocused(p), next)),
            None => None,
        },
    }
}

/// The encoding of a log entry: the array of its event and its timestamp.
pub open spec fn enc_entry(e: LogEntryView) -> Seq<u8> {
    enc_mark(ARRAY_OF_2) + enc_event(e.event) + enc_u64(e.timestamp_ms)
}

/// The log entry at `at`.
pub open spec fn dec_entry(bytes: Seq<u8>, at: int) -> Option<(LogEntryView, int)> {
    match dec_mark(bytes, at, ARRAY_OF_2) {
        Some(start) => match dec_event(bytes, start) {
            Some((event, pos1)) => match dec_u64(bytes, pos1) {
                Some((timestamp_ms, next)) => Some((LogEntryView { event, timestamp_ms }, next)),
                None => None,
            },
            None => None,
        },
        None => None,
    }
}

/// Decoding the encoding of a direction gives the direction.
pub proof fn lemma_direction_round_trip(bytes: Seq<u8>, at: int, d: NavDirection)
    requires
        holds_at(bytes, at, enc_direction(d)),
    ensures
        dec_direction(bytes, at) == Some((d, at + enc_direction(d).len())),
{
    lemma_direction_names(d);
    lemma_unit_round_trip(bytes, at, direction_name(d));
}

/// Decoding the encoding of a system key gives the key.
pub proof fn lemma_system_key_round_trip(bytes: Seq<u8>, at: int, k: SystemKeyEvent)
    requires
        holds_at(bytes, at, enc_system_key(k)),
    ensures
        dec_system_key(bytes, at) == Some((k, at + enc_system_key(k).len())),
{
    lemma_system_key_names(k);
    lemma_unit_round_trip(bytes, at, system_key_name(k));
}

/// Decoding the encoding of a shortcut key gives the key.
pub proof fn lemma_key_round_trip(bytes: Seq<u8>, at: int, k: ShortcutKey)
    requires
        holds_at(bytes, at, enc_key(k)),
    ensures
        dec_key(bytes, at) == Some((k, at + enc_key(k).len())),
{
    lemma_key_names(k);
    match k {
        ShortcutKey::Char(c) => {
            let head = enc_keyed("Char"@);
            let text = seq![c];
            lemma_byte_len_bound(text);
            lemma_holds_split(bytes, at, head, enc_text(text));
            lemma_keyed_round_trip(bytes, at, "Char"@);
            lemma_text_round_trip(bytes, at + head.len(), text);
        },
        ShortcutKey::F(n) => {
            let head = enc_keyed("F"@);
            lemma_holds_split(bytes, at, head, enc_u8(n));
            lemma_keyed_round_trip(bytes, at, "F"@);
            lemma_u8_round_trip(bytes, at + head.len(), n);
        },
        _ => {
            lemma_unit_round_trip(bytes, at, key_name(k));
        },
    }
}

/// Decoding the encoding of a shortcut gives the shortcut.
pub proof fn lemma_shortcut_round_trip(bytes: Seq<u8>, at: int, s: ShortcutEvent)
    requires
        holds_at(bytes, at, enc_shortcut(s)),
    ensures
        dec_shortcut(bytes, at) == Some((s, at + enc_shortcut(s).len())),
{
    let m = enc_mark(ARRAY_OF_5);
    let a = enc_key(s.key);
    let b = enc_bool(s.ctrl);
    let c = enc_bool(s.alt);
    let d = enc_bool(s.shift);
    let e = enc_bool(s.super_key);
    lemma_holds_split(bytes, at, m + a + b + c + d, e);
    lemma_holds_split(bytes, at, m + a + b + c, d);
    lemma_holds_split(bytes, at, m + a + b, c);
    lemma_holds_split(bytes, at, m + a, b);
    lemma_holds_split(bytes, at, m, a);
    lemma_mark_round_trip(bytes, at, ARRAY_OF_5);
    lemma_key_round_trip(bytes, at + 1, s.key);
    let pos1 = at + 1 + a.len();
    lemma_bool_round_trip(bytes, pos1, s.ctrl);
    lemma_bool_round_trip(bytes, pos1 + 1, s.alt);
    lemma_bool_round_trip(bytes, pos1 + 2, s.shift);
    lemma_bool_round_trip(bytes, pos1 + 3, s.super_key);
}

/// Decoding the encoding of a navigation key gives the key.
pub proof fn lemma_navigation_round_trip(bytes: Seq<u8>, at: int, n: NavigationEvent)
    requires
        holds_at(bytes, at, enc_navigation(n)),
    ensures
        dec_navigation(bytes, at) == Some((n, at + enc_navigation(n).len())),
{
    let m = enc_mark(ARRAY_OF_4);
    let a = enc_direction(n.direction);
    let b = enc_count(n.count);
    let c = enc_bool(n.with_shift);
    let d = enc_bool(n.with_ctrl);
    lemma_holds_split(bytes, at, m + a + b + c, d);
    lemma_holds_split(bytes, at, m + a + b, c);
    lemma_holds_split(bytes, at, m + a, b);
    lemma_holds_split(bytes, at, m, a);
    lemma_mark_round_trip(bytes, at, ARRAY_OF_4);
    lemma_direction_round_trip(bytes, at + 1, n.direction);
    let pos1 = at + 1 + a.len();
    lemma_count_round_trip(bytes, pos1, n.count);
    let pos2 = pos1 + b.len();
    lemma_bool_round_trip(bytes, pos2, n.with_shift);
    lemma_bool_round_trip(bytes, pos2 + 1, n.with_ctrl);
}

/// Decoding the encoding of a repeat count gives the count.
pub proof fn lemma_repeat_round_trip(bytes: Seq<u8>, at: int, count: usize)
    requires
        holds_at(bytes, at, enc_repeat(count)),
    ensures
        dec_repeat(bytes, at) == Some((count, at + enc_repeat(count).len())),
{
    lemma_holds_split(bytes, at, enc_mark(ARRAY_OF_1), enc_count(count));
    lemma_mark_round_trip(bytes, at, ARRAY_OF_1);
    lemma_count_round_trip(bytes, at + 1, count);
}

/// Decoding the encoding of an editing control key gives the key.
pub proof fn lemma_edit_control_round_trip(bytes: Seq<u8>, at: int, e: EditControlEvent)
    requires
        holds_at(bytes, at, enc_edit_control(e)),
    ensures
        dec_edit_control(bytes, at) == Some((e, at + enc_edit_control(e).len())),
{
    lemma_edit_control_names(e);
    let name = edit_control_name(e);
    match e {
        EditControlEvent::Backspace { count } => {
            let head = enc_keyed(name);
            lemma_holds_split(bytes, at, head, enc_repeat(count));
            lemma_keyed_round_trip(bytes, at, name);
            lemma_repeat_round_trip(bytes, at + head.len(), count);
        },
        EditControlEvent::Delete { count } => {
            let head = enc_keyed(name);
            lemma_holds_split(bytes, at, head, enc_repeat(count));
            lemma_keyed_round_trip(bytes, at, name);
            lemma_repeat_round_trip(bytes, at + head.len(), count);
        },
        _ => {
            lemma_unit_round_trip(bytes, at, name);
        },
    }
}

/// Decoding the encoding of a pane focus gives it back.
pub proof fn lemma_pane_round_trip(bytes: Seq<u8>, at: int, p: PaneFocusedView)
    requires
        event_fits(EventView::PaneFocused(p)),
        holds_at(bytes, at, enc_pane(p)),
    ensures
        dec_pane(bytes, at) == Some((p, at + enc_pane(p).len())),
{
    let m = enc_mark(ARRAY_OF_4);
    let a = enc_optional_text(p.tab_name);
    let b = enc_text(p.pane_title);
    let c = enc_optional_text(p.command);
    let d = enc_bool(p.is_plugin);
    lemma_holds_split(bytes, at, m + a + b + c, d);
    lemma_holds_split(bytes, at, m + a + b, c);
    lemma_holds_split(bytes, at, m + a, b);
    lemma_holds_split(bytes, at, m, a);
    lemma_mark_round_trip(bytes, at, ARRAY_OF_4);
    lemma_optional_text_round_trip(bytes, at + 1, p.tab_name);
    lemma_text_round_trip(bytes, at + 1 + a.len(), p.pane_title);
    lemma_optional_text_round_trip(bytes, at + 1 + a.len() + b.len(), p.command);
    lemma_bool_round_trip(bytes, at + 1 + a.len() + b.len() + c.len(), p.is_plugin);
}

/// Decoding the encoding of an event gives the event.
pub proof fn lemma_event_round_trip(bytes: Seq<u8>, at: int, e: EventView)
    requires
        event_fits(e),
        holds_at(bytes, at, enc_event(e)),
    ensures
        dec_event(bytes, at) == Some((e, at + enc_event(e).len())),
{
    let name = e.kind().spec_name();
    lemma_kind_names(e.kind());
    if e is Escape {
        lemma_unit_round_trip(bytes, at, name);
    } else {
        let head = enc_keyed(name);
        lemma_holds_split(bytes, at, head, enc_event_body(e));
        lemma_keyed_round_trip(bytes, at, name);
        let start = at + head.len();
        match e {
            EventView::TextTyped(t) => lemma_text_round_trip(bytes, start, t),
            EventView::Shortcut(s) => lemma_shortcut_round_trip(bytes, start, s),
            EventView::Navigation(n) => lemma_navigation_round_trip(bytes, start, n),
            EventView::EditControl(c) => lemma_edit_control_round_trip(bytes, start, c),
            EventView::Escape => {},
            EventView::FunctionKey(n) => lemma_u8_round_trip(bytes, start, n),
            EventView::SystemKey(k) => lemma_system_key_round_trip(bytes, start, k),
            EventView::PaneFocused(p) => lemma_pane_round_trip(bytes, start, p),
        }
    }
}

/// Decoding the encoding of a log entry gives the entry.
pub proof fn lemma_entry_round_trip(bytes: Seq<u8>, at: int, e: LogEntryView)
    requires
        event_fits(e.event),
        holds_at(bytes, at, enc_entry(e)),
    ensures
        dec_entry(bytes, at) == Some((e, at + enc_entry(e).len())),
        enc_entry(e).len() >= 1,
{
    let m = enc_mark(ARRAY_OF_2);
    let a = enc_event(e.event);
    lemma_holds_split(bytes, at, m + a, enc_u64(e.timestamp_ms));
    lemma_holds_split(bytes, at, m, a);
    lemma_mark_round_trip(bytes, at, ARRAY_OF_2);
    lemma_event_round_trip(bytes, at + 1, e.event);
    lemma_u64_round_trip(bytes, at + 1 + a.len(), e.timestamp_ms);
}

/// A decoded entry ends after its start and within the bytes.
pub proof fn lemma_dec_entry_bounds(bytes: Seq<u8>, at: int)
    requires
        dec_entry(bytes, at) is Some,
    ensures
        dec_entry(bytes, at) matches Some(found) && at < found.1 <= bytes.len(),
{
    lemma_entry_sound(bytes, at);
}

/// A direction is decoded from nothing but its encoding.
pub proof fn lemma_direction_sound(bytes: Seq<u8>, at: int)
    requires
        dec_direction(bytes, at) is Some,
    ensures
        dec_direction(bytes, at) matches Some(found) && at < found.1 <= bytes.len()
            && bytes.subrange(at, found.1) == enc_direction(found.0),
{
    lemma_head_sound(bytes, at);
}

/// A system key is decoded from nothing but its encoding.
pub proof fn lemma_system_key_sound(bytes: Seq<u8>, at: int)
    requires
        dec_system_key(bytes, at) is Some,
    ensures
        dec_system_key(bytes, at) matches Some(found) && at < found.1 <= bytes.len()
            && bytes.subrange(at, found.1) == enc_system_key(found.0),
{
    lemma_head_sound(bytes, at);
}

/// A shortcut key is decoded from nothing but its encoding.
pub proof fn lemma_key_sound(bytes: Seq<u8>, at: int)
    requires
        dec_key(bytes, at) is Some,
    ensures
        dec_key(bytes, at) matches Some(found) && at < found.1 <= bytes.len() && bytes.subrange(
            at,
            found.1,
        ) == enc_key(found.0),
{
    lemma_head_sound(bytes, at);
    let (keyed, name, start) = dec_head(bytes, at)->0;
    let (key, next) = dec_key(bytes, at)->0;
    if keyed {
        if name == "Char"@ {
            lemma_text_sound(bytes, start);
            let (text, end) = dec_text(bytes, start)->0;
            assert(text =~= seq![text[0]]);
        } else {
            lemma_u8_sound(bytes, start);
        }
        lemma_subrange_join(bytes, at, start, next);
    }
}

/// A shortcut is decoded from nothing but its encoding.
pub proof fn lemma_shortcut_sound(bytes: Seq<u8>, at: int)
    requires
        dec_shortcut(bytes, at) is Some,
    ensures
        dec_shortcut(bytes, at) matches Some(found) && at < found.1 <= bytes.len()
            && bytes.subrange(at, found.1) == enc_shortcut(found.0),
{
    lemma_mark_sound(bytes, at, ARRAY_OF_5);
    lemma_key_sound(bytes, at + 1);
    let (key, pos1) = dec_key(bytes, at + 1)->0;
    lemma_bool_sound(bytes, pos1);
    lemma_bool_sound(bytes, pos1 + 1);
    lemma_bool_sound(bytes, pos1 + 2);
    lemma_bool_sound(bytes, pos1 + 3);
    lemma_subrange_join(bytes, at, at + 1, pos1);
    lemma_subrange_join(bytes, at, pos1, pos1 + 1);
    lemma_subrange_join(bytes, at, pos1 + 1, pos1 + 2);
    lemma_subrange_join(bytes, at, pos1 + 2, pos1 + 3);
    lemma_subrange_join(bytes, at, pos1 + 3, pos1 + 4);
}

/// A navigation key is decoded from nothing but its encoding.
pub proof fn lemma_navigation_sound(bytes: Seq<u8>, at: int)
    requires
        dec_navigation(bytes, at) is Some,
    ensures
        dec_navigation(bytes, at) matches Some(found) && at < found.1 <= bytes.len()
            && bytes.subrange(at, found.1) == enc_navigation(found.0),
{
    lemma_mark_sound(bytes, at, ARRAY_OF_4);
    lemma_direction_sound(bytes, at + 1);
    let (direction, pos1) = dec_direction(bytes, at + 1)->0;
    lemma_count_sound(bytes, pos1);
    let (count, pos2) = dec_count(bytes, pos1)->0;
    lemma_bool_sound(bytes, pos2);
    lemma_bool_sound(bytes, pos2 + 1);
    lemma_subrange_join(bytes, at, at + 1, pos1);
    lemma_subrange_join(bytes, at, pos1, pos2);
    lemma_subrange_join(bytes, at, pos2, pos2 + 1);
    lemma_subrange_join(bytes, at, pos2 + 1, pos2 + 2);
}

/// A repeat count is decoded from nothing but its encoding.
pub proof fn lemma_repeat_sound(bytes: Seq<u8>, at: int)
    requires
        dec_repeat(bytes, at) is Some,
    ensures
        dec_repeat(bytes, at) matches Some(found) && at < found.1 <= bytes.len()
            && bytes.subrange(at, found.1) == enc_repeat(found.0),
{
    lemma_mark_sound(bytes, at, ARRAY_OF_1);
    lemma_count_sound(bytes, at + 1);
    let (count, next) = dec_count(bytes, at + 1)->0;
    lemma_subrange_join(bytes, at, at + 1, next);
}

/// An editing control key is decoded from nothing but its encoding.
pub proof fn lemma_edit_control_sound(bytes: Seq<u8>, at: int)
    requires
        dec_edit_control(bytes, at) is Some,
    ensures
        dec_edit_control(bytes, at) matches Some(found) && at < found.1 <= bytes.len()
            && bytes.subrange(at, found.1) == enc_edit_control(found.0),
{
    lemma_head_sound(bytes, at);
    let (keyed, name, start) = dec_head(bytes, at)->0;
    let (key, next) = dec_edit_control(bytes, at)->0;
    if keyed {
        lemma_repeat_sound(bytes, start);
        lemma_subrange_join(bytes, at, start, next);
    }
}

/// A pane focus is decoded from nothing but its encoding.
pub proof fn lemma_pane_sound(bytes: Seq<u8>, at: int)
    requires
        dec_pane(bytes, at) is Some,
    ensures
        dec_pane(bytes, at) matches Some(found) && at < found.1 <= bytes.len() && bytes.subrange(
            at,
            found.1,
        ) == enc_pane(found.0) && event_fits(EventView::PaneFocused(found.0)),
{
    lemma_mark_sound(bytes, at, ARRAY_OF_4);
    lemma_optional_text_sound(bytes, at + 1);
    let (tab_name, pos1) = dec_optional_text(bytes, at + 1)->0;
    lemma_text_sound(bytes, pos1);
    let (pane_title, pos2) = dec_text(bytes, pos1)->0;
    lemma_optional_text_sound(bytes, pos2);
    let (command, pos3) = dec_optional_text(bytes, pos2)->0;
    lemma_bool_sound(bytes, pos3);
    lemma_subrange_join(bytes, at, at + 1, pos1);
    lemma_subrange_join(bytes, at, pos1, pos2);
    lemma_subrange_join(bytes, at, pos2, pos3);
    lemma_subrange_join(bytes, at, pos3, pos3 + 1);
}

/// An event is decoded from nothing but its encoding.
pub proof fn lemma_event_sound(bytes: Seq<u8>, at: int)
    requires
        dec_event(bytes, at) is Some,
    ensures
        dec_event(bytes, at) matches Some(found) && at < found.1 <= bytes.len()
            && bytes.subrange(at, found.1) == enc_event(found.0) && event_fits(found.0),
{
    lemma_head_sound(bytes, at);
    let (keyed, name, start) = dec_head(bytes, at)->0;
    let kind = kind_of_name(name)->0;
    let (event, next) = dec_event(bytes, at)->0;
    assert(kind.spec_name() == name);
    assert(event.kind() == kind);
    match kind {
        EventKind::TextTyped => lemma_text_sound(bytes, start),
        EventKind::Shortcut => lemma_shortcut_sound(bytes, start),
        EventKind::Navigation => lemma_navigation_sound(bytes, start),
        EventKind::EditControl => lemma_edit_control_sound(bytes, start),
        EventKind::Escape => {},
        EventKind::FunctionKey => lemma_u8_sound(bytes, start),
        EventKind::SystemKey => lemma_system_key_sound(bytes, start),
        EventKind::PaneFocused => lemma_pane_sound(bytes, start),
    }
    if keyed {
        lemma_subrange_join(bytes, at, start, next);
    }
}

/// A log entry is decoded from nothing but its encoding.
pub proof fn lemma_entry_sound(bytes: Seq<u8>, at: int)
    requires
        dec_entry(bytes, at) is Some,
    ensures
        dec_entry(bytes, at) matches Some(found) && at < found.1 <= bytes.len()
            && bytes.subrange(at, found.1) == enc_entry(found.0) && event_fits(found.0.event),
{
    lemma_mark_sound(bytes, at, ARRAY_OF_2);
    lemma_event_sound(bytes, at + 1);
    let (event, pos1) = dec_event(bytes, at + 1)->0;
    lemma_u64_sound(bytes, pos1);
    let (timestamp_ms, next) = dec_u64(bytes, pos1)->0;
    lemma_subrange_join(bytes, at, at + 1, pos1);
    lemma_subrange_join(bytes, at, pos1, next);
}

fn name_of_direction(d: NavDirection) -> (r: &'static str)
    ensures
        r@ == direction_name(d),
{
    match d {
        NavDirection::Left => "Left",
        NavDirection::Right => "Right",
        NavDirection::Up => "Up",
        NavDirection::Down => "Down",
        NavDirection::Home => "Home",
        NavDirection::End => "End",
        NavDirection::PageUp => "PageUp",
        NavDirection::PageDown => "PageDown",
    }
}

fn direction_for_name(name: &str) -> (d: Option<NavDirection>)
    ensures
        d == direction_of_name(name@),
{
    if same_text(name, "Left") {
        Some(NavDirection::Left)
    } else if same_text(name, "Right") {
        Some(NavDirection::Right)
    } else if same_text(name, "Up") {
        Some(NavDirection::Up)
    } else if same_text(name, "Down") {
        Some(NavDirection::Down)
    } else if same_text(name, "Home") {
        Some(NavDirection::Home)
    } else if same_text(name, "End") {
        Some(NavDirection::End)
    } else if same_text(name, "PageUp") {
        Some(NavDirection::PageUp)
    } else if same_text(name, "PageDown") {
        Some(NavDirection::PageDown)
    } else {
        None
    }
}

fn name_of_system_key(k: SystemKeyEvent) -> (r: &'static str)
    ensures
        r@ == system_key_name(k),
{
    match k {
        SystemKeyEvent::CapsLock => "CapsLock",
        SystemKeyEvent::ScrollLock => "ScrollLock",
        SystemKeyEvent::NumLock => "NumLock",
        SystemKeyEvent::PrintScreen => "PrintScreen",
        SystemKeyEvent::Pause => "Pause",
        SystemKeyEvent::Menu => "Menu",
    }
}

fn system_key_for_name(name: &str) -> (k: Option<SystemKeyEvent>)
    ensures
        k == system_key_of_name(name@),
{
    if same_text(name, "CapsLock") {
        Some(SystemKeyEvent::CapsLock)
    } else if same_text(name, "ScrollLock") {
        Some(SystemKeyEvent::ScrollLock)
    } else if same_text(name, "NumLock") {
        Some(SystemKeyEvent::NumLock)
    } else if same_text(name, "PrintScreen") {
        Some(SystemKeyEvent::PrintScreen)
    } else if same_text(name, "Pause") {
        Some(SystemKeyEvent::Pause)
    } else if same_text(name, "Menu") {
        Some(SystemKeyEvent::Menu)
    } else {
        None
    }
}

fn name_of_key(k: ShortcutKey) -> (r: &'static str)
    ensures
        r@ == key_name(k),
{
    match k {
        ShortcutKey::Char(_) => "Char",
        ShortcutKey::Enter => "Enter",
        ShortcutKey::Tab => "Tab",
        ShortcutKey::Backspace => "Backspace",
        ShortcutKey::Delete => "Delete",
        ShortcutKey::Esc => "Esc",
        ShortcutKey::Insert => "Insert",
        ShortcutKey::Left => "Left",
        ShortcutKey::Right => "Right",
        ShortcutKey::Up => "Up",
        ShortcutKey::Down => "Down",
        ShortcutKey::Home => "Home",
        ShortcutKey::End => "End",
        ShortcutKey::PageUp => "PageUp",
        ShortcutKey::PageDown => "PageDown",
        ShortcutKey::F(_) => "F",
    }
}

fn plain_key_for_name(name: &str) -> (k: Option<ShortcutKey>)
    ensures
        k == plain_key_of_name(name@),
{
    if same_text(name, "Enter") {
        Some(ShortcutKey::Enter)
    } else if same_text(name, "Tab") {
        Some(ShortcutKey::Tab)
    } else if same_text(name, "Backspace") {
        Some(ShortcutKey::Backspace)
    } else if same_text(name, "Delete") {
        Some(ShortcutKey::Delete)
    } else if same_text(name, "Esc") {
        Some(ShortcutKey::Esc)
    } else if same_text(name, "Insert") {
        Some(ShortcutKey::Insert)
    } else if same_text(name, "Left") {
        Some(ShortcutKey::Left)
    } else if same_text(name, "Right") {
        Some(ShortcutKey::Right)
    } else if same_text(name, "Up") {
        Some(ShortcutKey::Up)
    } else if same_text(name, "Down") {
        Some(ShortcutKey::Down)
    } else if same_text(name, "Home") {
        Some(ShortcutKey::Home)
    } else if same_text(name, "End") {
        Some(ShortcutKey::End)
    } else if same_text(name, "PageUp") {
        Some(ShortcutKey::PageUp)
    } else if same_text(name, "PageDown") {
        Some(ShortcutKey::PageDown)
    } else {
        None
    }
}

fn name_of_edit_control(e: &EditControlEvent) -> (r: &'static str)
    ensures
        r@ == edit_control_name(*e),
{
    match e {
        EditControlEvent::Enter => "Enter",
        EditControlEvent::Tab => "Tab",
        EditControlEvent::Backspace { .. } => "Backspace",
        EditControlEvent::Delete { .. } => "Delete",
        EditControlEvent::Insert => "Insert",
    }
}

fn kind_for_name(name: &str) -> (k: Option<EventKind>)
    ensures
        k == kind_of_name(name@),
{
    if same_text(name, "TextTyped") {
        Some(EventKind::TextTyped)
    } else if same_text(name, "Shortcut") {
        Some(EventKind::Shortcut)
    } else if same_text(name, "Navigation") {
        Some(EventKind::Navigation)
    } else if same_text(name, "EditControl") {
        Some(EventKind::EditControl)
    } else if same_text(name, "Escape") {
        Some(EventKind::Escape)
    } else if same_text(name, "FunctionKey") {
        Some(EventKind::FunctionKey)
    } else if same_text(name, "SystemKey") {
        Some(EventKind::SystemKey)
    } else if same_text(name, "PaneFocused") {
        Some(EventKind::PaneFocused)
    } else {
        None
    }
}

/// Write a direction at the end of `out`.
pub fn put_direction(out: &mut Vec<u8>, d: NavDirection)
    ensures
        final(out)@ == old(out)@ + enc_direction(d),
{
    proof {
        lemma_direction_names(d);
    }
    put_unit(out, name_of_direction(d));
}

/// Read the direction at `pos`.
pub fn read_direction(data: &[u8], pos: usize) -> (r: Option<(NavDirection, usize)>)
    ensures
        match r {
            Some((d, next)) => dec_direction(data@, pos as int) == Some((d, next as int)),
            None => dec_direction(data@, pos as int) is None,
        },
{
    match read_head(data, pos) {
        Some((keyed, name, next)) => match direction_for_name(name.as_str()) {
            Some(d) => if keyed {
                None
            } else {
                Some((d, next))
            },
            None => None,
        },
        None => None,
    }
}

/// Write a system key at the end of `out`.
pub fn put_system_key(out: &mut Vec<u8>, k: SystemKeyEvent)
    ensures
        final(out)@ == old(out)@ + enc_system_key(k),
{
    proof {
        lemma_system_key_names(k);
    }
    put_unit(out, name_of_system_key(k));
}

/// Read the system key at `pos`.
pub fn read_system_key(data: &[u8], pos: usize) -> (r: Option<(SystemKeyEvent, usize)>)
    ensures
        match r {
            Some((k, next)) => dec_system_key(data@, pos as int) == Some((k, next as int)),
            None => dec_system_key(data@, pos as int) is None,
        },
{
    match read_head(data, pos) {
        Some((keyed, name, next)) => match system_key_for_name(name.as_str()) {
            Some(k) => if keyed {
                None
            } else {
                Some((k, next))
            },
            None => None,
        },
        None => None,
    }
}

/// Write a shortcut key at the end of `out`.
pub fn put_key(out: &mut Vec<u8>, k: ShortcutKey)
    ensures
        final(out)@ == old(out)@ + enc_key(k),
{
    proof {
        lemma_key_names(k);
    }
    match k {
        ShortcutKey::Char(c) => {
            let text = scalar_text(c);
            proof {
                lemma_byte_len_bound(text@);
            }
            put_keyed(out, name_of_key(k));
            put_text(out, text.as_str());
            assert(out@ =~= old(out)@ + enc_key(k));
        },
        ShortcutKey::F(n) => {
            put_keyed(out, name_of_key(k));
            put_u8(out, n);
            assert(out@ =~= old(out)@ + enc_key(k));
        },
        _ => {
            put_unit(out, name_of_key(k));
        },
    }
}

/// Read the shortcut key at `pos`.
pub fn read_key(data: &[u8], pos: usize) -> (r: Option<(ShortcutKey, usize)>)
    ensures
        match r {
            Some((k, next)) => dec_key(data@, pos as int) == Some((k, next as int)),
            None => dec_key(data@, pos as int) is None,
        },
{
    let (keyed, name, start) = match read_head(data, pos) {
        Some(found) => found,
        None => {
            return None;
        },
    };
    if !keyed {
        match plain_key_for_name(name.as_str()) {
            Some(k) => Some((k, start)),
            None => None,
        }
    } else if same_text(name.as_str(), "Char") {
        match read_text(data, start) {
            Some((text, next)) => {
                if text.as_str().unicode_len() == 1 {
                    let c = text.as_str().get_char(0);
                    Some((ShortcutKey::Char(c), next))
                } else {
                    None
                }
            },
            None => None,
        }
    } else if same_text(name.as_str(), "F") {
        match read_u8(data, start) {
            Some((n, next)) => Some((ShortcutKey::F(n), next)),
            None => None,
        }
    } else {
        None
    }
}

/// Write a shortcut at the end of `out`.
pub fn put_shortcut(out: &mut Vec<u8>, s: &ShortcutEvent)
    ensures
        final(out)@ == old(out)@ + enc_shortcut(*s),
{
    put_mark(out, ARRAY_OF_5);
    put_key(out, s.key);
    put_bool(out, s.ctrl);
    put_bool(out, s.alt);
    put_bool(out, s.shift);
    put_bool(out, s.super_key);
    assert(out@ =~= old(out)@ + enc_shortcut(*s));
}

/// Read the shortcut at `pos`.
pub fn read_shortcut(data: &[u8], pos: usize) -> (r: Option<(ShortcutEvent, usize)>)
    ensures
        match r {
            Some((s, next)) => dec_shortcut(data@, pos as int) == Some((s, next as int)),
            None => dec_shortcut(data@, pos as int) is None,
        },
{
    let pos0 = match read_mark(data, pos, ARRAY_OF_5) {
        Some(found) => found,
        None => {
            return None;
        },
    };
    let (key, pos1) = match read_key(data, pos0) {
        Some(found) => found,
        None => {
            return None;
        },
    };
    let (ctrl, pos2) = match read_bool(data, pos1) {
        Some(found) => found,
        None => {
            return None;
        },
    };
    let (alt, pos3) = match read_bool(data, pos2) {
        Some(found) => found,
        None => {
            return None;
        },
    };
    let (shift, pos4) = match read_bool(data, pos3) {
        Some(found) => found,
        None => {
            return None;
        },
    };
    let (super_key, pos5) = match read_bool(data, pos4) {
        Some(found) => found,
        None => {
            return None;
        },
    };
    Some((ShortcutEvent { key, ctrl, alt, shift, super_key }, pos5))
}

/// Write a navigation key at the end of `out`.
pub fn put_navigation(out: &mut Vec<u8>, n: &NavigationEvent)
    ensures
        final(out)@ == old(out)@ + enc_navigation(*n),
{
    put_mark(out, ARRAY_OF_4);
    put_direction(out, n.direction);
    put_count(out, n.count);
    put_bool(out, n.with_shift);
    put_bool(out, n.with_ctrl);
    assert(out@ =~= old(out)@ + enc_navigation(*n));
}

/// Read the navigation key at `pos`.
pub fn read_navigation(data: &[u8], pos: usize) -> (r: Option<(NavigationEvent, usize)>)
    ensures
        match r {
            Some((n, next)) => dec_navigation(data@, pos as int) == Some((n, next as int)),
            None => dec_navigation(data@, pos as int) is None,
        },
{
    let pos0 = match read_mark(data, pos, ARRAY_OF_4) {
        Some(found) => found,
        None => {
            return None;
        },
    };
    let (direction, pos1) = match read_direction(data, pos0) {
        Some(found) => found,
        None => {
            return None;
        },
    };
    let (count, pos2) = match read_count(data, pos1) {
        Some(found) => found,
        None => {
            return None;
        },
    };
    let (with_shift, pos3) = match read_bool(data, pos2) {
        Some(found) => found,
        None => {
            return None;
        },
    };
    let (with_ctrl, pos4) = match read_bool(data, pos3) {
        Some(found) => found,
        None => {
            return None;
        },
    };
    Some((NavigationEvent { direction, count, with_shift, with_ctrl }, pos4))
}

fn put_repeat(out: &mut Vec<u8>, count: usize)
    ensures
        final(out)@ == old(out)@ + enc_repeat(count),
{
    put_mark(out, ARRAY_OF_1);
    put_count(out, count);
    assert(out@ =~= old(out)@ + enc_repeat(count));
}

fn read_repeat(data: &[u8], pos: usize) -> (r: Option<(usize, usize)>)
    ensures
        match r {
            Some((count, next)) => dec_repeat(data@, pos as int) == Some((count, next as int)),
            None => dec_repeat(data@, pos as int) is None,
        },
{
    match read_mark(data, pos, ARRAY_OF_1) {
        Some(start) => read_count(data, start),
        None => None,
    }
}

/// Write an editing control key at the end of `out`.
pub fn put_edit_control(out: &mut Vec<u8>, e: &EditControlEvent)
    ensures
        final(out)@ == old(out)@ + enc_edit_control(*e),
{
    proof {
        lemma_edit_control_names(*e);
    }
    match e {
        EditControlEvent::Backspace { count } => {
            put_keyed(out, name_of_edit_control(e));
            put_repeat(out, *count);
            assert(out@ =~= old(out)@ + enc_edit_control(*e));
        },
        EditControlEvent::Delete { count } => {
            put_keyed(out, name_of_edit_control(e));
            put_repeat(out, *count);
            assert(out@ =~= old(out)@ + enc_edit_control(*e));
        },
        _ => put_unit(out, name_of_edit_control(e)),
    }
}

/// Read the editing control key at `pos`.
pub fn read_edit_control(data: &[u8], pos: usize) -> (r: Option<(EditControlEvent, usize)>)
    ensures
        match r {
            Some((e, next)) => dec_edit_control(data@, pos as int) == Some((e, next as int)),
            None => dec_edit_control(data@, pos as int) is None,
        },
{
    let (keyed, name, start) = match read_head(data, pos) {
        Some(found) => found,
        None => {
            return None;
        },
    };
    if !keyed {
        if same_text(name.as_str(), "Enter") {
            Some((EditControlEvent::Enter, start))
        } else if same_text(name.as_str(), "Tab") {
            Some((EditControlEvent::Tab, start))
        } else if same_text(name.as_str(), "Insert") {
            Some((EditControlEvent::Insert, start))
        } else {
            None
        }
    } else if same_text(name.as_str(), "Backspace") {
        match read_repeat(data, start) {
            Some((count, next)) => Some((EditControlEvent::Backspace { count }, next)),
            None => None,
        }
    } else if same_text(name.as_str(), "Delete") {
        match read_repeat(data, start) {
            Some((count, next)) => Some((EditControlEvent::Delete { count }, next)),
            None => None,
        }
    } else {
        None
    }
}

/// Write a pane focus at the end of `out`.
pub fn put_pane(out: &mut Vec<u8>, p: &PaneFocusedEvent)
    requires
        event_fits(EventView::PaneFocused(p@)),
    ensures
        final(out)@ == old(out)@ + enc_pane(p@),
{
    put_mark(out, ARRAY_OF_4);
    put_optional_text(out, &p.tab_name);
    put_text(out, p.pane_title.as_str());
    put_optional_text(out, &p.command);
    put_bool(out, p.is_plugin);
    assert(out@ =~= old(out)@ + enc_pane(p@));
}

/// Read the pane focus at `pos`.
pub fn read_pane(data: &[u8], pos: usize) -> (r: Option<(PaneFocusedEvent, usize)>)
    ensures
        match r {
            Some((p, next)) => dec_pane(data@, pos as int) == Some((p@, next as int)),
            None => dec_pane(data@, pos as int) is None,
        },
{
    let pos0 = match read_mark(data, pos, ARRAY_OF_4) {
        Some(found) => found,
        None => {
            return None;
        },
    };
    let (tab_name, pos1) = match read_optional_text(data, pos0) {
        Some(found) => found,
        None => {
            return None;
        },
    };
    let (pane_title, pos2) = match read_text(data, pos1) {
        Some(found) => found,
        None => {
            return None;
        },
    };
    let (command, pos3) = match read_optional_text(data, pos2) {
        Some(found) => found,
        None => {
            return None;
        },
    };
    let (is_plugin, pos4) = match read_bool(data, pos3) {
        Some(found) => found,
        None => {
            return None;
        },
    };
    Some((PaneFocusedEvent { tab_name, pane_title, command, is_plugin }, pos4))
}

fn fits_optional(text: &Option<String>) -> (r: bool)
    ensures
        r == (crate::events::optional_text(*text) matches Some(t) ==> text_fits(t)),
{
    match text {
        Some(t) => fits(t.as_str()),
        None => true,
    }
}

/// Whether every text of the event has a length that can be written down.
pub fn fits_event(e: &KeystrokeEvent) -> (r: bool)
    ensures
        r == event_fits(e@),
{
    match e {
        KeystrokeEvent::TextTyped(t) => fits(t.as_str()),
        KeystrokeEvent::PaneFocused(p) => fits_optional(&p.tab_name) && fits(
            p.pane_title.as_str(),
        ) && fits_optional(&p.command),
        _ => true,
    }
}

/// Write an event at the end of `out`.
pub fn put_event(out: &mut Vec<u8>, e: &KeystrokeEvent)
    requires
        event_fits(e@),
    ensures
        final(out)@ == old(out)@ + enc_event(e@),
{
    let kind = e.kind();
    proof {
        lemma_kind_names(kind);
    }
    match e {
        KeystrokeEvent::Escape => {
            put_unit(out, kind.name());
        },
        KeystrokeEvent::TextTyped(t) => {
            put_keyed(out, kind.name());
            put_text(out, t.as_str());
        },
        KeystrokeEvent::Shortcut(s) => {
            put_keyed(out, kind.name());
            put_shortcut(out, s);
        },
        KeystrokeEvent::Navigation(n) => {
            put_keyed(out, kind.name());
            put_navigation(out, n);
        },
        KeystrokeEvent::EditControl(c) => {
            put_keyed(out, kind.name());
            put_edit_control(out, c);
        },
        KeystrokeEvent::FunctionKey(n) => {
            put_keyed(out, kind.name());
            put_u8(out, *n);
        },
        KeystrokeEvent::SystemKey(k) => {
            put_keyed(out, kind.name());
            put_system_key(out, *k);
        },
        KeystrokeEvent::PaneFocused(p) => {
            put_keyed(out, kind.name());
            put_pane(out, p);
        },
    }
    assert(out@ =~= old(out)@ + enc_event(e@));
}

fn read_event_of(data: &[u8], start: usize, kind: EventKind) -> (r: Option<(KeystrokeEvent, usize)>)
    ensures
        match r {
            Some((e, next)) => dec_event_of(data@, start as int, kind) == Some((e@, next as int)),
            None => dec_event_of(data@, start as int, kind) is None,
        },
{
    match kind {
        EventKind::TextTyped => match read_text(data, start) {
            Some((t, next)) => Some((KeystrokeEvent::TextTyped(t), next)),
            None => None,
        },
        EventKind::Shortcut => match read_shortcut(data, start) {
            Some((s, next)) => Some((KeystrokeEvent::Shortcut(s), next)),
            None => None,
        },
        EventKind::Navigation => match read_navigation(data, start) {
            Some((n, next)) => Some((KeystrokeEvent::Navigation(n), next)),
            None => None,
        },
        EventKind::EditControl => match read_edit_control(data, start) {
            Some((c, next)) => Some((KeystrokeEvent::EditControl(c), next)),
            None => None,
        },
        EventKind::Escape => Some((KeystrokeEvent::Escape, start)),
        EventKind::FunctionKey => match read_u8(data, start) {
            Some((n, next)) => Some((KeystrokeEvent::FunctionKey(n), next)),
            None => None,
        },
        EventKind::SystemKey => match read_system_key(data, start) {
            Some((k, next)) => Some((KeystrokeEvent::SystemKey(k), next)),
            None => None,
        },
        EventKind::PaneFocused => match read_pane(data, start) {
            Some((p, next)) => Some((KeystrokeEvent::PaneFocused(p), next)),
            None => None,
        },
    }
}

/// Read the event at `pos`.
pub fn read_event(data: &[u8], pos: usize) -> (r: Option<(KeystrokeEvent, usize)>)
    ensures
        match r {
            Some((e, next)) => dec_event(data@, pos as int) == Some((e@, next as int)),
            None => dec_event(data@, pos as int) is None,
        },
{
    let (keyed, name, start) = match read_head(data, pos) {
        Some(found) => found,
        None => {
            return None;
        },
    };
    match kind_for_name(name.as_str()) {
        Some(kind) => {
            let holds_nothing = match kind {
                EventKind::Escape => true,
                _ => false,
            };
            if keyed == holds_nothing {
                None
            } else {
                read_event_of(data, start, kind)
            }
        },
        None => None,
    }
}

/// Write a log entry at the end of `out`.
pub fn put_entry(out: &mut Vec<u8>, e: &LogEntry)
    requires
        event_fits(e@.event),
    ensures
        final(out)@ == old(out)@ + enc_entry(e@),
{
    put_mark(out, ARRAY_OF_2);
    put_event(out, &e.event);
    put_u64(out, e.timestamp_ms);
    assert(out@ =~= old(out)@ + enc_entry(e@));
}

/// Read the log entry at `pos`.
pub fn read_entry(data: &[u8], pos: usize) -> (r: Option<(LogEntry, usize)>)
    ensures
        match r {
            Some((e, next)) => dec_entry(data@, pos as int) == Some((e@, next as int)),
            None => dec_entry(data@, pos as int) is None,
        },
{
    let start = match read_mark(data, pos, ARRAY_OF_2) {
        Some(found) => found,
        None => {
            return None;
        },
    };
    match read_event(data, start) {
        Some((event, pos1)) => match read_u64(data, pos1) {
            Some((timestamp_ms, next)) => Some((LogEntry { event, timestamp_ms }, next)),
            None => None,
        },
        None => None,
    }
}

} // verus!
