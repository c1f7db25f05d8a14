//! Which pane has the keyboard focus, and what it is called.

use crate::decimal::{decimal, decimal_text};
use crate::events::{optional_text, PaneFocusedEvent, PaneFocusedView};
use std::collections::HashMap;
use vstd::prelude::*;
use vstd::string::StringExecFns;

verus! {

/// What is known of one pane when the layout changes.
#[derive(Debug, PartialEq, Eq)]
pub struct PaneSnapshot {
    /// The position of the tab that holds the pane.
    pub tab_index: usize,
    pub id: u32,
    pub is_plugin: bool,
    pub is_focused: bool,
    pub is_selectable: bool,
    pub is_suppressed: bool,
    pub title: String,
    pub terminal_command: Option<String>,
    pub plugin_url: Option<String>,
}

/// The model of a [`PaneSnapshot`].
pub struct PaneSnapshotView {
    pub tab_index: usize,
    pub id: u32,
    pub is_plugin: bool,
    pub is_focused: bool,
    pub is_selectable: bool,
    pub is_suppressed: bool,
    pub title: Seq<char>,
    pub terminal_command: Option<Seq<char>>,
    pub plugin_url: Option<Seq<char>>,
}

impl View for PaneSnapshot {
    type V = PaneSnapshotView;

    open spec fn view(&self) -> PaneSnapshotView {
        PaneSnapshotView {
            tab_index: self.tab_index,
            id: self.id,
            is_plugin: self.is_plugin,
            is_focused: self.is_focused,
            is_selectable: self.is_selectable,
            is_suppressed: self.is_suppressed,
            title: self.title@,
            terminal_command: optional_text(self.terminal_command),
            plugin_url: optional_text(self.plugin_url),
        }
    }
}

impl Clone for PaneSnapshot {
    fn clone(&self) -> (r: Self)
        ensures
            r == *self,
    {
        PaneSnapshot {
            tab_index: self.tab_index,
            id: self.id,
            is_plugin: self.is_plugin,
            is_focused: self.is_focused,
            is_selectable: self.is_selectable,
            is_suppressed: self.is_suppressed,
            title: self.title.clone(),
            terminal_command: match &self.terminal_command {
                Some(command) => Some(command.clone()),
                None => None,
            },
            plugin_url: match &self.plugin_url {
                Some(url) => Some(url.clone()),
                None => None,
            },
        }
    }
}

/// The pane that has the focus.
#[derive(Debug, Clone, Copy, PartialEq, Eq, Structural)]
pub struct FocusedPane {
    pub tab_index: usize,
    pub pane_id: u32,
    pub is_plugin: bool,
}

/// `needle` occurs in `haystack`.
pub open spec fn occurs_in(needle: Seq<char>, haystack: Seq<char>) -> bool {
    exists|i: int|
        0 <= i && i + needle.len() <= haystack.len() && #[trigger] haystack.subrange(
            i,
            i + needle.len(),
        ) == needle
}

/// `str::contains` with a text as the pattern: whether `needle` occurs in
/// `haystack`.
#[verifier::external_body]
fn contains_text(haystack: &str, needle: &str) -> (found: bool)
    ensures
        found == occurs_in(needle@, haystack@),
{
    haystack.contains(needle)
}

/// The word by which a plugin pane of this program is known in its URL.
pub open spec fn own_marker() -> Seq<char> {
    "crumbeez"@
}

/// A pane that can be the focus of the user's work: selectable, not
/// suppressed, and no pane of this program itself.
pub open spec fn eligible(pane: PaneSnapshotView, own_plugin_id: u32) -> bool {
    &&& pane.is_selectable
    &&& !pane.is_suppressed
    &&& !(pane.is_plugin && ((pane.plugin_url matches Some(url) && occurs_in(own_marker(), url))
        || pane.id == own_plugin_id))
}

/// Whether `pane` can be the focus of the user's work.
pub fn is_eligible(pane: &PaneSnapshot, own_plugin_id: u32) -> (r: bool)
    ensures
        r == eligible(pane@, own_plugin_id),
{
    if !pane.is_selectable || pane.is_suppressed {
        return false;
    }
    if pane.is_plugin {
        if let Some(url) = &pane.plugin_url {
            if contains_text(url.as_str(), "crumbeez") {
                return false;
            }
        }
        if pane.id == own_plugin_id {
            return false;
        }
    }
    true
}

/// The position of the first eligible pane that has the focus, if there is
/// one.
pub fn find_focused(panes: &Vec<PaneSnapshot>, own_plugin_id: u32) -> (r: Option<usize>)
    ensures
        match r {
            Some(i) => {
                &&& i < panes@.len()
                &&& eligible(panes@[i as int]@, own_plugin_id)
                &&& panes@[i as int].is_focused
                &&& forall|j: int|
                    0 <= j < i ==> !(eligible((#[trigger] panes@[j])@, own_plugin_id)
                        && panes@[j].is_focused)
            },
            None => forall|j: int|
                0 <= j < panes@.len() ==> !(eligible((#[trigger] panes@[j])@, own_plugin_id)
                    && panes@[j].is_focused),
        },
{
    let mut i: usize = 0;
    while i < panes.len()
        invariant
            0 <= i <= panes@.len(),
            forall|j: int|
                0 <= j < i ==> !(eligible((#[trigger] panes@[j])@, own_plugin_id)
                    && panes@[j].is_focused),
        decreases panes@.len() - i,
    {
        if is_eligible(&panes[i], own_plugin_id) && panes[i].is_focused {
            return Some(i);
        }
        i += 1;
    }
    None
}

/// The names of the tabs that have one: of `tabs`, given as position and
/// name, those with a name that is not empty, by position. Where a
/// position is listed more than once, the last name that is not empty
/// stands.
pub open spec fn named_tabs(tabs: Seq<(usize, Seq<char>)>) -> Map<usize, Seq<char>>
    decreases tabs.len(),
{
    if tabs.len() == 0 {
        Map::empty()
    } else if tabs.last().1.len() > 0 {
        named_tabs(tabs.drop_last()).insert(tabs.last().0, tabs.last().1)
    } else {
        named_tabs(tabs.drop_last())
    }
}

/// The models of a list of tabs.
pub open spec fn tab_views(tabs: Seq<(usize, String)>) -> Seq<(usize, Seq<char>)> {
    tabs.map_values(|t: (usize, String)| (t.0, t.1@))
}

/// The model of the names on record: each position with its name as text.
pub open spec fn name_views(names: Map<usize, String>) -> Map<usize, Seq<char>> {
    Map::new(|position: usize| names.contains_key(position), |position: usize| names[position]@)
}

/// Keep the tabs that have a name.
pub fn tab_names_of(tabs: Vec<(usize, String)>) -> (names: HashMap<usize, String>)
    ensures
        name_views(names@) == named_tabs(tab_views(tabs@)),
{
    broadcast use vstd::std_specs::hash::group_hash_axioms;

    let mut names: HashMap<usize, String> = HashMap::new();
    let ghost all = tab_views(tabs@);
    let mut i: usize = 0;
    proof {
        assert(all.take(0) =~= Seq::empty());
        assert(name_views(names@) =~= Map::empty());
    }
    while i < tabs.len()
        invariant
            0 <= i <= tabs@.len(),
            all == tab_views(tabs@),
            name_views(names@) == named_tabs(all.take(i as int)),
        decreases tabs@.len() - i,
    {
        let ghost shown = names@;
        proof {
            assert(all.take(i + 1).drop_last() =~= all.take(i as int));
            assert(all.take(i + 1).last() == all[i as int]);
        }
        if !tabs[i].1.as_str().is_empty() {
            let position = tabs[i].0;
            let name = tabs[i].1.clone();
            names.insert(position, name);
            assert(name_views(names@) =~= name_views(shown).insert(position, name@));
        }
        i += 1;
    }
    assert(all.take(tabs@.len() as int) =~= all);
    names
}

/// The name by which an unnamed tab goes: `tab` and its number, counted
/// from one.
pub open spec fn default_tab_name(position: usize) -> Seq<char> {
    "tab "@ + decimal_text(
        if position < usize::MAX {
            (position + 1) as nat
        } else {
            position as nat
        },
    )
}

/// The name of the tab at `position`: the one on record, or `tab` and its
/// number.
pub open spec fn tab_name(names: Map<usize, Seq<char>>, position: usize) -> Seq<char> {
    if names.contains_key(position) {
        names[position]
    } else {
        default_tab_name(position)
    }
}

/// The name of the tab at `position`.
pub fn tab_name_for(names: &HashMap<usize, String>, position: usize) -> (name: String)
    ensures
        name@ == tab_name(name_views(names@), position),
{
    broadcast use vstd::std_specs::hash::group_hash_axioms;

    match names.get(&position) {
        Some(name) => {
            return name.clone();
        },
        None => {},
    }
    let number = if position < usize::MAX {
        position + 1
    } else {
        position
    };
    let mut name = "tab ".to_owned();
    let digits = decimal(number as u64);
    name.append(digits.as_str());
    name
}

/// The focus, and the event that reports it, for the pane `pane` in a tab
/// called `tab`.
pub open spec fn focus_event(pane: PaneSnapshotView, tab: Seq<char>) -> PaneFocusedView {
    PaneFocusedView {
        tab_name: Some(tab),
        pane_title: pane.title,
        command: pane.terminal_command,
        is_plugin: pane.is_plugin,
    }
}

/// The event that reports the focus on `pane`.
pub fn focus_event_for(pane: &PaneSnapshot, names: &HashMap<usize, String>) -> (event:
    PaneFocusedEvent)
    ensures
        event@ == focus_event(pane@, tab_name(name_views(names@), pane.tab_index)),
{
    PaneFocusedEvent {
        tab_name: Some(tab_name_for(names, pane.tab_index)),
        pane_title: pane.title.clone(),
        command: match &pane.terminal_command {
            Some(command) => Some(command.clone()),
            None => None,
        },
        is_plugin: pane.is_plugin,
    }
}

} // verus!
