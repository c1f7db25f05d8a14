//! How events, summaries and errors are shown to the user.

use crate::decimal::{decimal, decimal_text};
use crate::discovery::{texts, DiscoveryPhase};
use crate::events::{
    EditControlEvent, EventView, KeystrokeEvent, NavDirection, NavigationEvent, PaneFocusedEvent,
    PaneFocusedView, ShortcutEvent, ShortcutKey, SystemKeyEvent,
};
use crate::persist::EventLogError;
use crate::summary::{type_views, Summary, SummaryView};
use crate::text::scalar_text;
use vstd::prelude::*;
use vstd::string::{StrSliceExecFns, StringExecFns};

verus! {

/// The text that formatting `text` with `{:?}` gives: the text in double
/// quotes, with its special scalars escaped.
pub uninterp spec fn debug_quoted(text: Seq<char>) -> Seq<char>;

/// `<str as Debug>::fmt`, through `format!`: the quoted and escaped text.
#[verifier::external_body]
fn debug_text(text: &str) -> (r: String)
    ensures
        r@ == debug_quoted(text@),
{
    format!("{:?}", text)
}

/// How a direction is shown.
pub open spec fn direction_text(d: NavDirection) -> Seq<char> {
    match d {
        NavDirection::Left => "←"@,
        NavDirection::Right => "→"@,
        NavDirection::Up => "↑"@,
        NavDirection::Down => "↓"@,
        NavDirection::Home => "Home"@,
        NavDirection::End => "End"@,
        NavDirection::PageUp => "PgUp"@,
        NavDirection::PageDown => "PgDn"@,
    }
}

/// How a shortcut key is shown.
pub open spec fn key_text(k: ShortcutKey) -> Seq<char> {
    match k {
        ShortcutKey::Char(c) => seq![c],
        ShortcutKey::Enter => "Enter"@,
        ShortcutKey::Tab => "Tab"@,
        ShortcutKey::Backspace => "Backspace"@,
        ShortcutKey::Delete => "Delete"@,
        ShortcutKey::Esc => "Esc"@,
        ShortcutKey::Insert => "Insert"@,
        ShortcutKey::Left => "←"@,
        ShortcutKey::Right => "→"@,
        ShortcutKey::Up => "↑"@,
        ShortcutKey::Down => "↓"@,
        ShortcutKey::Home => "Home"@,
        ShortcutKey::End => "End"@,
        ShortcutKey::PageUp => "PgUp"@,
        ShortcutKey::PageDown => "PgDn"@,
        ShortcutKey::F(n) => "F"@ + decimal_text(n as nat),
    }
}

/// `text` if `on`, and nothing otherwise.
pub open spec fn when(on: bool, text: Seq<char>) -> Seq<char> {
    if on {
        text
    } else {
        Seq::empty()
    }
}

/// How a shortcut is shown: its modifiers, each followed by `+`, then its
/// key.
pub open spec fn shortcut_text(s: ShortcutEvent) -> Seq<char> {
    when(s.ctrl, "Ctrl+"@) + when(s.alt, "Alt+"@) + when(s.shift, "Shift+"@) + when(
        s.super_key,
        "Super+"@,
    ) + key_text(s.key)
}

/// How a repetition is shown: nothing for one, ` ×` and the count otherwise.
pub open spec fn times_text(count: usize) -> Seq<char> {
    if count > 1 {
        " ×"@ + decimal_text(count as nat)
    } else {
        Seq::empty()
    }
}

/// How a navigation key is shown.
pub open spec fn navigation_text(n: NavigationEvent) -> Seq<char> {
    when(n.with_ctrl, "Ctrl+"@) + when(n.with_shift, "Shift+"@) + direction_text(n.direction)
        + times_text(n.count)
}

/// How an editing control key is shown. A Backspace or Delete with a count
/// other than one shows the count.
pub open spec fn edit_control_text(e: EditControlEvent) -> Seq<char> {
    match e {
        EditControlEvent::Enter => "Enter"@,
        EditControlEvent::Tab => "Tab"@,
        EditControlEvent::Backspace { count } => if count == 1 {
            "Backspace"@
        } else {
            "Backspace ×"@ + decimal_text(count as nat)
        },
        EditControlEvent::Delete { count } => if count == 1 {
            "Delete"@
        } else {
            "Delete ×"@ + decimal_text(count as nat)
        },
        EditControlEvent::Insert => "Insert"@,
    }
}

/// How a system key is shown.
pub open spec fn system_key_text(k: SystemKeyEvent) -> Seq<char> {
    match k {
        SystemKeyEvent::CapsLock => "CapsLock"@,
        SystemKeyEvent::ScrollLock => "ScrollLock"@,
        SystemKeyEvent::NumLock => "NumLock"@,
        SystemKeyEvent::PrintScreen => "PrintScreen"@,
        SystemKeyEvent::Pause => "Pause"@,
        SystemKeyEvent::Menu => "Menu"@,
    }
}

/// The position after the last `/` among the first `upto` scalars of
/// `text`, or 0 if there is none.
pub open spec fn after_last_slash(text: Seq<char>, upto: int) -> int
    decreases upto,
{
    if upto <= 0 {
        0
    } else if text[upto - 1] == '/' {
        upto
    } else {
        after_last_slash(text, upto - 1)
    }
}

/// The last component of a command: what follows its last `/`.
pub open spec fn basename(command: Seq<char>) -> Seq<char> {
    command.skip(after_last_slash(command, command.len() as int))
}

/// How a pane focus is shown: the tab and the basename of the command in
/// square brackets, as far as they are known, then the title.
pub open spec fn pane_text(p: PaneFocusedView) -> Seq<char> {
    (match (p.tab_name, p.command) {
        (Some(tab), Some(command)) => "["@ + tab + " ("@ + basename(command) + ")] "@,
        (Some(tab), None) => "["@ + tab + "] "@,
        (None, Some(command)) => "[("@ + basename(command) + ")] "@,
        (None, None) => Seq::empty(),
    }) + p.pane_title
}

/// How an event is shown.
pub open spec fn event_text(e: EventView) -> Seq<char> {
    match e {
        EventView::TextTyped(t) => "typed "@ + debug_quoted(t),
        EventView::Shortcut(s) => "shortcut "@ + shortcut_text(s),
        EventView::Navigation(n) => "nav "@ + navigation_text(n),
        EventView::EditControl(c) => "edit-ctrl "@ + edit_control_text(c),
        EventView::Escape => "Esc"@,
        EventView::FunctionKey(n) => "F"@ + decimal_text(n as nat),
        EventView::SystemKey(k) => "sys "@ + system_key_text(k),
        EventView::PaneFocused(p) => "focus → "@ + pane_text(p),
    }
}

impl NavDirection {
    /// How the direction is shown.
    pub fn describe(&self) -> (r: String)
        ensures
            r@ == direction_text(*self),
    {
        match self {
            NavDirection::Left => "←".to_owned(),
            NavDirection::Right => "→".to_owned(),
            NavDirection::Up => "↑".to_owned(),
            NavDirection::Down => "↓".to_owned(),
            NavDirection::Home => "Home".to_owned(),
            NavDirection::End => "End".to_owned(),
            NavDirection::PageUp => "PgUp".to_owned(),
            NavDirection::PageDown => "PgDn".to_owned(),
        }
    }
}

impl ShortcutKey {
    /// How the key is shown.
    pub fn describe(&self) -> (r: String)
        ensures
            r@ == key_text(*self),
    {
        match self {
            ShortcutKey::Char(c) => scalar_text(*c),
            ShortcutKey::Enter => "Enter".to_owned(),
            ShortcutKey::Tab => "Tab".to_owned(),
            ShortcutKey::Backspace => "Backspace".to_owned(),
            ShortcutKey::Delete => "Delete".to_owned(),
            ShortcutKey::Esc => "Esc".to_owned(),
            ShortcutKey::Insert => "Insert".to_owned(),
            ShortcutKey::Left => "←".to_owned(),
            ShortcutKey::Right => "→".to_owned(),
            ShortcutKey::Up => "↑".to_owned(),
            ShortcutKey::Down => "↓".to_owned(),
            ShortcutKey::Home => "Home".to_owned(),
            ShortcutKey::End => "End".to_owned(),
            ShortcutKey::PageUp => "PgUp".to_owned(),
            ShortcutKey::PageDown => "PgDn".to_owned(),
            ShortcutKey::F(n) => {
                let mut r = "F".to_owned();
                r.append(decimal(*n as u64).as_str());
                r
            },
        }
    }
}

impl ShortcutEvent {
    /// How the shortcut is shown.
    pub fn describe(&self) -> (r: String)
        ensures
            r@ == shortcut_text(*self),
    {
        let mut r = String::new();
        if self.ctrl {
            r.append("Ctrl+");
        }
        if self.alt {
            r.append("Alt+");
        }
        if self.shift {
            r.append("Shift+");
        }
        if self.super_key {
            r.append("Super+");
        }
        r.append(self.key.describe().as_str());
        assert(r@ =~= shortcut_text(*self));
        r
    }
}

/// How a repetition is shown.
fn times(count: usize) -> (r: String)
    ensures
        r@ == times_text(count),
{
    let mut r = String::new();
    if count > 1 {
        r.append(" ×");
        r.append(decimal(count as u64).as_str());
    }
    assert(r@ =~= times_text(count));
    r
}

impl NavigationEvent {
    /// How the navigation key is shown.
    pub fn describe(&self) -> (r: String)
        ensures
            r@ == navigation_text(*self),
    {
        let mut r = String::new();
        if self.with_ctrl {
            r.append("Ctrl+");
        }
        if self.with_shift {
            r.append("Shift+");
        }
        r.append(self.direction.describe().as_str());
        r.append(times(self.count).as_str());
        assert(r@ =~= navigation_text(*self));
        r
    }
}

impl EditControlEvent {
    /// How the editing control key is shown.
    pub fn describe(&self) -> (r: String)
        ensures
            r@ == edit_control_text(*self),
    {
        match self {
            EditControlEvent::Enter => "Enter".to_owned(),
            EditControlEvent::Tab => "Tab".to_owned(),
            EditControlEvent::Backspace { count } => {
                if *count == 1 {
                    "Backspace".to_owned()
                } else {
                    let mut r = "Backspace ×".to_owned();
                    r.append(decimal(*count as u64).as_str());
                    r
                }
            },
            EditControlEvent::Delete { count } => {
                if *count == 1 {
                    "Delete".to_owned()
                } else {
                    let mut r = "Delete ×".to_owned();
                    r.append(decimal(*count as u64).as_str());
                    r
                }
            },
            EditControlEvent::Insert => "Insert".to_owned(),
        }
    }
}

impl SystemKeyEvent {
    /// How the system key is shown.
    pub fn describe(&self) -> (r: String)
        ensures
            r@ == system_key_text(*self),
    {
        match self {
            SystemKeyEvent::CapsLock => "CapsLock".to_owned(),
            SystemKeyEvent::ScrollLock => "ScrollLock".to_owned(),
            SystemKeyEvent::NumLock => "NumLock".to_owned(),
            SystemKeyEvent::PrintScreen => "PrintScreen".to_owned(),
            SystemKeyEvent::Pause => "Pause".to_owned(),
            SystemKeyEvent::Menu => "Menu".to_owned(),
        }
    }
}

/// The last component of a command: what follows its last `/`.
pub fn command_basename(command: &str) -> (r: String)
    ensures
        r@ == basename(command@),
{
    let len = command.unicode_len();
    let mut i: usize = len;
    while i > 0 && command.get_char(i - 1) != '/'
        invariant
            0 <= i <= len == command@.len(),
            after_last_slash(command@, len as int) == after_last_slash(command@, i as int),
        decreases i,
    {
        i -= 1;
    }
    command.substring_char(i, len).to_owned()
}

impl PaneFocusedEvent {
    /// How the pane focus is shown.
    pub fn describe(&self) -> (r: String)
        ensures
            r@ == pane_text(self@),
    {
        let mut r = String::new();
        match (&self.tab_name, &self.command) {
            (Some(tab), Some(command)) => {
                r.append("[");
                r.append(tab.as_str());
                r.append(" (");
                r.append(command_basename(command.as_str()).as_str());
                r.append(")] ");
            },
            (Some(tab), None) => {
                r.append("[");
                r.append(tab.as_str());
                r.append("] ");
            },
            (None, Some(command)) => {
                r.append("[(");
                r.append(command_basename(command.as_str()).as_str());
                r.append(")] ");
            },
            (None, None) => {},
        }
        r.append(self.pane_title.as_str());
        assert(r@ =~= pane_text(self@));
        r
    }
}

impl KeystrokeEvent {
    /// How the event is shown.
    pub fn describe(&self) -> (r: String)
        ensures
            r@ == event_text(self@),
    {
        match self {
            KeystrokeEvent::TextTyped(s) => {
                let mut r = "typed ".to_owned();
                r.append(debug_text(s.as_str()).as_str());
                r
            },
            KeystrokeEvent::Shortcut(s) => {
                let mut r = "shortcut ".to_owned();
                r.append(s.describe().as_str());
                r
            },
            KeystrokeEvent::Navigation(n) => {
                let mut r = "nav ".to_owned();
                r.append(n.describe().as_str());
                r
            },
            KeystrokeEvent::EditControl(e) => {
                let mut r = "edit-ctrl ".to_owned();
                r.append(e.describe().as_str());
                r
            },
            KeystrokeEvent::Escape => "Esc".to_owned(),
            KeystrokeEvent::FunctionKey(n) => {
                let mut r = "F".to_owned();
                r.append(decimal(*n as u64).as_str());
                r
            },
            KeystrokeEvent::SystemKey(k) => {
                let mut r = "sys ".to_owned();
                r.append(k.describe().as_str());
                r
            },
            KeystrokeEvent::PaneFocused(p) => {
                let mut r = "focus → ".to_owned();
                r.append(p.describe().as_str());
                r
            },
        }
    }
}

impl EventLogError {
    /// How the error is shown.
    pub open spec fn spec_describe(self) -> Seq<char> {
        match self {
            EventLogError::InvalidFormat(message) => "Invalid format: "@ + message@,
            EventLogError::Serialization(message) => "Serialization error: "@ + message@,
            EventLogError::Deserialization(message) => "Deserialization error: "@ + message@,
        }
    }

    /// How the error is shown.
    pub fn describe(&self) -> (r: String)
        ensures
            r@ == self.spec_describe(),
    {
        match self {
            EventLogError::InvalidFormat(message) => {
                let mut r = "Invalid format: ".to_owned();
                r.append(message.as_str());
                r
            },
            EventLogError::Serialization(message) => {
                let mut r = "Serialization error: ".to_owned();
                r.append(message.as_str());
                r
            },
            EventLogError::Deserialization(message) => {
                let mut r = "Deserialization error: ".to_owned();
                r.append(message.as_str());
                r
            },
        }
    }
}

/// The lines of a summary: a headline with the number of events, then one
/// line for each kind with its count.
pub open spec fn summary_lines(types: Seq<(Seq<char>, int)>) -> Seq<char>
    decreases types.len(),
{
    if types.len() == 0 {
        Seq::empty()
    } else {
        summary_lines(types.drop_last()) + "\n  "@ + types.last().0 + ": "@ + decimal_text(
            types.last().1 as nat,
        )
    }
}

/// How a summary is shown.
pub open spec fn summary_text(s: SummaryView) -> Seq<char> {
    "📊 Summary: "@ + decimal_text(s.events_consumed as nat) + " events processed"@
        + summary_lines(s.event_types)
}

impl Summary {
    /// How the summary is shown.
    pub fn describe(&self) -> (r: String)
        ensures
            r@ == summary_text(self@),
    {
        let mut r = "📊 Summary: ".to_owned();
        r.append(decimal(self.events_consumed() as u64).as_str());
        r.append(" events processed");
        let listed = self.event_types();
        let ghost head = r@;
        let ghost types = self@.event_types;
        let mut i: usize = 0;
        assert(types.take(0) =~= Seq::empty());
        while i < listed.len()
            invariant
                0 <= i <= listed@.len(),
                types == type_views(listed@),
                r@ == head + summary_lines(types.take(i as int)),
            decreases listed@.len() - i,
        {
            let ghost before = r@;
            proof {
                assert(types.take(i + 1).drop_last() =~= types.take(i as int));
                assert(types.take(i + 1).last() == types[i as int]);
            }
            r.append("\n  ");
            r.append(listed[i].0.as_str());
            r.append(": ");
            r.append(decimal(listed[i].1 as u64).as_str());
            assert(r@ =~= head + summary_lines(types.take(i + 1)));
            i += 1;
        }
        assert(types.take(listed@.len() as int) =~= types);
        r
    }
}

/// `parts`, each but the first after a comma and a space.
pub open spec fn comma_separated(parts: Seq<Seq<char>>) -> Seq<char>
    decreases parts.len(),
{
    if parts.len() == 0 {
        Seq::empty()
    } else if parts.len() == 1 {
        parts[0]
    } else {
        comma_separated(parts.drop_last()) + ", "@ + parts.last()
    }
}

/// Join `parts` with a comma and a space.
pub fn join_with_commas(parts: &Vec<String>) -> (r: String)
    ensures
        r@ == comma_separated(texts(parts@)),
{
    let mut r = String::new();
    let ghost all = texts(parts@);
    let mut i: usize = 0;
    assert(all.take(0) =~= Seq::empty());
    while i < parts.len()
        invariant
            0 <= i <= parts@.len(),
            all == texts(parts@),
            r@ == comma_separated(all.take(i as int)),
        decreases parts@.len() - i,
    {
        proof {
            assert(all.take(i + 1).drop_last() =~= all.take(i as int));
            assert(all.take(i + 1).last() == parts@[i as int]@);
        }
        if i > 0 {
            r.append(", ");
        }
        r.append(parts[i].as_str());
        assert(r@ =~= comma_separated(all.take(i + 1)));
        i += 1;
    }
    assert(all.take(parts@.len() as int) =~= all);
    r
}

/// How a phase of discovery is shown.
pub open spec fn phase_text(phase: DiscoveryPhase) -> Seq<char> {
    match phase {
        DiscoveryPhase::AwaitingPermissions => "⏳ Awaiting permissions..."@,
        DiscoveryPhase::FindingGitRoot => "🔍 Finding git root..."@,
        DiscoveryPhase::FindingSuperproject => "🔍 Checking for parent repo..."@,
        DiscoveryPhase::CreatingDirs { pending, .. } => "📁 Creating .crumbeez dirs ("@
            + decimal_text(pending as nat) + " remaining)..."@,
        DiscoveryPhase::Ready { dirs } => "✅ Ready — "@ + comma_separated(texts(dirs@)),
        DiscoveryPhase::Failed(message) => "❌ Failed: "@ + message@,
    }
}

impl DiscoveryPhase {
    /// How the phase is shown.
    pub fn describe(&self) -> (r: String)
        ensures
            r@ == phase_text(*self),
    {
        match self {
            DiscoveryPhase::AwaitingPermissions => "⏳ Awaiting permissions...".to_owned(),
            DiscoveryPhase::FindingGitRoot => "🔍 Finding git root...".to_owned(),
            DiscoveryPhase::FindingSuperproject => "🔍 Checking for parent repo...".to_owned(),
            DiscoveryPhase::CreatingDirs { pending, .. } => {
                let mut r = "📁 Creating .crumbeez dirs (".to_owned();
                r.append(decimal(*pending as u64).as_str());
                r.append(" remaining)...");
                r
            },
            DiscoveryPhase::Ready { dirs } => {
                let mut r = "✅ Ready — ".to_owned();
                r.append(join_with_commas(dirs).as_str());
                r
            },
            DiscoveryPhase::Failed(message) => {
                let mut r = "❌ Failed: ".to_owned();
                r.append(message.as_str());
                r
            },
        }
    }
}

/// What is shown of a line in `cols` columns: the line itself if it fits or
/// if there are no more than four columns, and otherwise its first
/// `cols - 1` scalars and an ellipsis.
pub open spec fn truncated(line: Seq<char>, cols: usize) -> Seq<char> {
    if cols > 4 && line.len() > cols {
        line.take(cols - 1) + "…"@
    } else {
        line
    }
}

/// Cut a line to `cols` columns, marking the cut with an ellipsis.
pub fn truncate_line(line: &str, cols: usize) -> (r: String)
    ensures
        r@ == truncated(line@, cols),
{
    if cols > 4 && line.unicode_len() > cols {
        let mut r = line.substring_char(0, cols - 1).to_owned();
        r.append("…");
        r
    } else {
        line.to_owned()
    }
}

/// The position of the first of `count` entries that is shown in `rows`
/// rows: the last `rows - 15` entries are shown, and at least one.
pub open spec fn first_visible(rows: usize, count: usize) -> int {
    let available: int = if rows > 16 {
        rows - 15
    } else {
        1
    };
    if count > available {
        count - available
    } else {
        0
    }
}

/// The position of the first entry that is shown.
pub fn visible_start(rows: usize, count: usize) -> (r: usize)
    ensures
        r == first_visible(rows, count),
{
    let available = if rows > 16 {
        rows - 15
    } else {
        1
    };
    if count > available {
        count - available
    } else {
        0
    }
}

} // verus!
