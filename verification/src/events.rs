//! The closed alphabet of semantic keystroke events.

use vstd::prelude::*;

verus! {

/// Direction of a navigation keystroke.
#[derive(Debug, Clone, Copy, PartialEq, Eq, Structural)]
pub enum NavDirection {
    Left,
    Right,
    Up,
    Down,
    Home,
    End,
    PageUp,
    PageDown,
}

/// A navigation keystroke, with repetition count.
#[derive(Debug, Clone, Copy, PartialEq, Eq, Structural)]
pub struct NavigationEvent {
    pub direction: NavDirection,
    /// How many consecutive times this key was pressed.
    pub count: usize,
    pub with_shift: bool,
    pub with_ctrl: bool,
}

/// An editing control keystroke.
#[derive(Debug, Clone, Copy, PartialEq, Eq, Structural)]
pub enum EditControlEvent {
    Enter,
    Tab,
    /// Backspace, with repetition count for consecutive presses.
    Backspace { count: usize },
    /// Forward delete, with repetition count.
    Delete { count: usize },
    Insert,
}

/// A system-level key.
#[derive(Debug, Clone, Copy, PartialEq, Eq, Structural)]
pub enum SystemKeyEvent {
    CapsLock,
    ScrollLock,
    NumLock,
    PrintScreen,
    Pause,
    Menu,
}

/// The base key of a shortcut chord.
#[derive(Debug, Clone, Copy, PartialEq, Eq, Structural)]
pub enum ShortcutKey {
    Char(char),
    Enter,
    Tab,
    Backspace,
    Delete,
    Esc,
    Insert,
    Left,
    Right,
    Up,
    Down,
    Home,
    End,
    PageUp,
    PageDown,
    F(u8),
}

/// A keyboard shortcut: a chord involving Ctrl, Alt, or Super.
#[derive(Debug, Clone, Copy, PartialEq, Eq, Structural)]
pub struct ShortcutEvent {
    pub key: ShortcutKey,
    pub ctrl: bool,
    pub alt: bool,
    pub shift: bool,
    pub super_key: bool,
}

/// Describes the pane that just received keyboard focus.
#[derive(Debug, PartialEq, Eq)]
pub struct PaneFocusedEvent {
    /// The tab name, if known and non-empty.
    pub tab_name: Option<String>,
    /// The pane title as shown in the UI.
    pub pane_title: String,
    /// The raw command string for terminal panes, `None` for plugin panes.
    pub command: Option<String>,
    /// `true` when this is a plugin pane rather than a terminal pane.
    pub is_plugin: bool,
}

/// A semantic classification of a single keystroke or chord.
#[derive(Debug, PartialEq, Eq)]
pub enum KeystrokeEvent {
    /// Printable characters typed with no non-Shift modifiers.
    TextTyped(String),
    /// A key chord that includes Ctrl, Alt, or Super.
    Shortcut(ShortcutEvent),
    /// Arrow keys, Home, End, PageUp, PageDown.
    Navigation(NavigationEvent),
    /// Enter, Tab, Backspace, Delete, Insert.
    EditControl(EditControlEvent),
    /// Esc.
    Escape,
    /// A function key pressed without any modifier.
    FunctionKey(u8),
    /// CapsLock, ScrollLock, NumLock, PrintScreen, Pause, Menu.
    SystemKey(SystemKeyEvent),
    /// Keyboard focus moved to a different pane.
    PaneFocused(PaneFocusedEvent),
}

/// The tag of a [`KeystrokeEvent`], without its payload.
#[derive(Debug, Clone, Copy, PartialEq, Eq, Structural)]
pub enum EventKind {
    TextTyped,
    Shortcut,
    Navigation,
    EditControl,
    Escape,
    FunctionKey,
    SystemKey,
    PaneFocused,
}

/// The model of a [`PaneFocusedEvent`]: its fields, with every text as its
/// sequence of scalars.
pub struct PaneFocusedView {
    pub tab_name: Option<Seq<char>>,
    pub pane_title: Seq<char>,
    pub command: Option<Seq<char>>,
    pub is_plugin: bool,
}

/// The model of a [`KeystrokeEvent`]: the same alphabet, with every text as
/// its sequence of scalars.
pub enum EventView {
    TextTyped(Seq<char>),
    Shortcut(ShortcutEvent),
    Navigation(NavigationEvent),
    EditControl(EditControlEvent),
    Escape,
    FunctionKey(u8),
    SystemKey(SystemKeyEvent),
    PaneFocused(PaneFocusedView),
}

/// The scalars of a text that may be absent.
pub open spec fn optional_text(s: Option<String>) -> Option<Seq<char>> {
    match s {
        Some(text) => Some(text@),
        None => None,
    }
}

impl View for PaneFocusedEvent {
    type V = PaneFocusedView;

    open spec fn view(&self) -> PaneFocusedView {
        PaneFocusedView {
            tab_name: optional_text(self.tab_name),
            pane_title: self.pane_title@,
            command: optional_text(self.command),
            is_plugin: self.is_plugin,
        }
    }
}

impl View for KeystrokeEvent {
    type V = EventView;

    open spec fn view(&self) -> EventView {
        match self {
            KeystrokeEvent::TextTyped(s) => EventView::TextTyped(s@),
            KeystrokeEvent::Shortcut(s) => EventView::Shortcut(*s),
            KeystrokeEvent::Navigation(n) => EventView::Navigation(*n),
            KeystrokeEvent::EditControl(e) => EventView::EditControl(*e),
            KeystrokeEvent::Escape => EventView::Escape,
            KeystrokeEvent::FunctionKey(n) => EventView::FunctionKey(*n),
            KeystrokeEvent::SystemKey(k) => EventView::SystemKey(*k),
            KeystrokeEvent::PaneFocused(p) => EventView::PaneFocused(p@),
        }
    }
}

impl EventView {
    /// The tag of this event.
    pub open spec fn kind(self) -> EventKind {
        match self {
            EventView::TextTyped(_) => EventKind::TextTyped,
            EventView::Shortcut(_) => EventKind::Shortcut,
            EventView::Navigation(_) => EventKind::Navigation,
            EventView::EditControl(_) => EventKind::EditControl,
            EventView::Escape => EventKind::Escape,
            EventView::FunctionKey(_) => EventKind::FunctionKey,
            EventView::SystemKey(_) => EventKind::SystemKey,
            EventView::PaneFocused(_) => EventKind::PaneFocused,
        }
    }
}

impl Clone for PaneFocusedEvent {
    fn clone(&self) -> (r: Self)
        ensures
            r == *self,
    {
        PaneFocusedEvent {
            tab_name: clone_optional_string(&self.tab_name),
            pane_title: self.pane_title.clone(),
            command: clone_optional_string(&self.command),
            is_plugin: self.is_plugin,
        }
    }
}

impl Clone for KeystrokeEvent {
    fn clone(&self) -> (r: Self)
        ensures
            r == *self,
    {
        match self {
            KeystrokeEvent::TextTyped(s) => KeystrokeEvent::TextTyped(s.clone()),
            KeystrokeEvent::Shortcut(s) => KeystrokeEvent::Shortcut(*s),
            KeystrokeEvent::Navigation(n) => KeystrokeEvent::Navigation(*n),
            KeystrokeEvent::EditControl(e) => KeystrokeEvent::EditControl(*e),
            KeystrokeEvent::Escape => KeystrokeEvent::Escape,
            KeystrokeEvent::FunctionKey(n) => KeystrokeEvent::FunctionKey(*n),
            KeystrokeEvent::SystemKey(k) => KeystrokeEvent::SystemKey(*k),
            KeystrokeEvent::PaneFocused(p) => KeystrokeEvent::PaneFocused(p.clone()),
        }
    }
}

fn clone_optional_string(s: &Option<String>) -> (r: Option<String>)
    ensures
        r == *s,
{
    match s {
        Some(text) => Some(text.clone()),
        None => None,
    }
}

impl KeystrokeEvent {
    /// The tag of this event.
    pub fn kind(&self) -> (k: EventKind)
        ensures
            k == self@.kind(),
    {
        match self {
            KeystrokeEvent::TextTyped(_) => EventKind::TextTyped,
            KeystrokeEvent::Shortcut(_) => EventKind::Shortcut,
            KeystrokeEvent::Navigation(_) => EventKind::Navigation,
            KeystrokeEvent::EditControl(_) => EventKind::EditControl,
            KeystrokeEvent::Escape => EventKind::Escape,
            KeystrokeEvent::FunctionKey(_) => EventKind::FunctionKey,
            KeystrokeEvent::SystemKey(_) => EventKind::SystemKey,
            KeystrokeEvent::PaneFocused(_) => EventKind::PaneFocused,
        }
    }
}

} // verus!
