//! The session: one value that owns the activity ring, the durable event log
//! and the live text that is on its way into the log.
//!
//! Every event goes to both consumers. The ring shows it at once. The log
//! takes text only when it is complete: typed text and editing keys build up
//! a live buffer, and the first event that seals the buffer sends the text to
//! the log, followed by the event itself. Editing keys that find no buffer
//! are not logged.

use crate::activity::{typed_nonempty, ActivityView, KeystrokeActivity};
use crate::base64::{base64_decode_bytes, decoded};
use crate::buffer::{
    apply_to_buffer, disposition, edit, is_editing, model, replay, BufferView, Disposition,
    LiveBuffer,
};
use crate::event_log::{EventLog, LogEntryView, LogView};
use crate::events::{EventView, KeystrokeEvent};
use crate::panes::{
    eligible, find_focused, focus_event, focus_event_for, name_views, tab_name, tab_names_of,
    tab_views,
    FocusedPane, PaneSnapshot, PaneSnapshotView,
};
use crate::persist::{enc_log, entries_fit, parse_log, Loaded};
use crate::summary::{generate_summary, summary_of, Summary, SummaryView};
use std::collections::HashMap;
use vstd::prelude::*;

verus! {

/// Idle time, in milliseconds, after which logged activity is summarized.
pub const INACTIVITY_TIMER_MS: u64 = 10000;

/// How many summaries are kept for display.
pub const MAX_PENDING_SUMMARIES: usize = 10;

/// The models of a list of summaries.
pub open spec fn summary_views(summaries: Seq<Summary>) -> Seq<SummaryView> {
    summaries.map_values(|s: Summary| s@)
}

/// The summaries kept for display after `summary` is added: the newest ten.
pub open spec fn kept_summaries(summaries: Seq<SummaryView>, summary: SummaryView) -> Seq<
    SummaryView,
> {
    if summaries.len() + 1 > MAX_PENDING_SUMMARIES {
        summaries.push(summary).drop_first()
    } else {
        summaries.push(summary)
    }
}

/// `i` is the position of the first eligible pane of `panes` that has the
/// focus.
pub open spec fn is_first_focused(panes: Seq<PaneSnapshot>, own_plugin_id: u32, i: int) -> bool {
    &&& 0 <= i < panes.len()
    &&& eligible(panes[i]@, own_plugin_id)
    &&& panes[i].is_focused
    &&& forall|j: int|
        0 <= j < i ==> !(eligible((#[trigger] panes[j])@, own_plugin_id) && panes[j].is_focused)
}

/// No eligible pane of `panes` has the focus.
pub open spec fn none_focused(panes: Seq<PaneSnapshot>, own_plugin_id: u32) -> bool {
    forall|j: int|
        0 <= j < panes.len() ==> !(eligible((#[trigger] panes[j])@, own_plugin_id)
            && panes[j].is_focused)
}

/// The log after the live text, if any, has been sent to it at time `now`.
pub open spec fn sealed(log: LogView, live: Option<BufferView>, now: u64) -> LogView {
    match live {
        Some(b) => log.append(
            LogEntryView { event: EventView::TextTyped(b.text), timestamp_ms: now },
        ),
        None => log,
    }
}

/// The log and the live text after `event` at time `now`: an event that
/// edits changes the live text only; an editing key without live text
/// changes nothing; any other event sends the live text to the log and
/// follows it there.
pub open spec fn recorded(log: LogView, live: Option<BufferView>, event: EventView, now: u64) -> (
    LogView,
    Option<BufferView>,
) {
    match disposition(live is Some, event) {
        Disposition::Absorbed => (log, edit(live, event)),
        Disposition::PassThrough => (log, None),
        Disposition::Seal => (
            sealed(log, live, now).append(LogEntryView { event, timestamp_ms: now }),
            None,
        ),
    }
}

/// The model of a session.
pub struct SessionView {
    pub activity: ActivityView,
    pub log: LogView,
    pub live: Option<BufferView>,
    pub pane_has_activity: bool,
    pub last_activity_ms: Option<u64>,
    pub last_summary_ms: Option<u64>,
    pub focused_pane: Option<FocusedPane>,
    pub pending_summaries: Seq<SummaryView>,
    pub tab_names: Map<usize, Seq<char>>,
}

impl SessionView {
    /// A session that has seen nothing yet and continues `log`.
    pub open spec fn fresh(log: LogView) -> SessionView {
        SessionView {
            activity: ActivityView { entries: Seq::empty(), cursor: None },
            log,
            live: None,
            pane_has_activity: false,
            last_activity_ms: None,
            last_summary_ms: None,
            focused_pane: None,
            pending_summaries: Seq::empty(),
            tab_names: Map::empty(),
        }
    }

    /// The session after a summary cycle at time `now`: the live text is
    /// sealed; if the log then holds unconsumed entries, they are summarized
    /// and consumed, and the summary is kept for display.
    pub open spec fn after_cycle(self, now: u64) -> SessionView {
        let log = sealed(self.log, self.live, now);
        if log.unconsumed().len() == 0 {
            SessionView { log, live: None, ..self }
        } else {
            SessionView {
                log: log.consume(log.unconsumed().len() as int),
                live: None,
                pending_summaries: kept_summaries(
                    self.pending_summaries,
                    summary_of(log.unconsumed()),
                ),
                ..self
            }
        }
    }

    /// A summary cycle at time `now` finds something to summarize.
    pub open spec fn summarizes(self, now: u64) -> bool {
        sealed(self.log, self.live, now).unconsumed().len() > 0
    }

    /// The bytes that a summary cycle at time `now` hands out to be stored:
    /// the persisted form of the log after the cycle, if anything was
    /// summarized and the log can be encoded.
    pub open spec fn cycle_output(self, now: u64) -> Option<Seq<u8>> {
        let after = self.after_cycle(now).log;
        if !self.summarizes(now) || !entries_fit(after.entries) {
            None
        } else {
            Some(enc_log(after.entries, after.consumed as u64))
        }
    }

    /// The session after a timer fired at `now`: a summary cycle if one is
    /// due, and nothing otherwise.
    pub open spec fn after_timer(self, now: u64) -> SessionView {
        if self.due_for_summary(now) {
            if self.summarizes(now) {
                SessionView { last_summary_ms: Some(now), ..self.after_cycle(now) }
            } else {
                self.after_cycle(now)
            }
        } else {
            self
        }
    }

    /// The session after the focus was found on `pane` at time `now`. The
    /// same pane as before changes nothing. Another pane ends the work on the
    /// old one: what was done there is summarized, and the change of focus
    /// is logged as an event.
    pub open spec fn focus_on(self, pane: PaneSnapshotView, now: u64) -> SessionView {
        let focus = FocusedPane {
            tab_index: pane.tab_index,
            pane_id: pane.id,
            is_plugin: pane.is_plugin,
        };
        if self.focused_pane == Some(focus) {
            self
        } else {
            let summarized = if self.pane_has_activity {
                self.after_cycle(now)
            } else {
                self
            };
            let moved = SessionView {
                focused_pane: Some(focus),
                pane_has_activity: false,
                ..summarized
            };
            moved.log_event(
                EventView::PaneFocused(focus_event(pane, tab_name(self.tab_names, pane.tab_index))),
                now,
            )
        }
    }

    /// The bytes to be stored after the focus was found on `pane`.
    pub open spec fn focus_output(self, pane: PaneSnapshotView, now: u64) -> Option<Seq<u8>> {
        let focus = FocusedPane {
            tab_index: pane.tab_index,
            pane_id: pane.id,
            is_plugin: pane.is_plugin,
        };
        if self.focused_pane != Some(focus) && self.pane_has_activity {
            self.cycle_output(now)
        } else {
            None
        }
    }

    /// The session after the stored log came back as the output `stdout` of
    /// a command that ended with `exit_code`: the log is replaced if the
    /// command succeeded and its output decodes to a log.
    pub open spec fn after_load(self, exit_code: Option<i32>, stdout: Seq<u8>) -> SessionView {
        if exit_code == Some(0i32) && stdout.len() > 0 {
            match parse_log(decoded(stdout)) {
                Loaded::Log(log) => SessionView { log, ..self },
                _ => self,
            }
        } else {
            self
        }
    }

    /// The session after `event` at time `now`.
    pub open spec fn log_event(self, event: EventView, now: u64) -> SessionView {
        let (log, live) = recorded(self.log, self.live, event, now);
        SessionView {
            activity: self.activity.push(event),
            log,
            live,
            pane_has_activity: true,
            last_activity_ms: Some(now),
            ..self
        }
    }

    /// Whether a timer that fires at `now` finds the session idle for the
    /// inactivity period, with activity since the last summary.
    pub open spec fn due_for_summary(self, now: u64) -> bool {
        &&& self.last_activity_ms matches Some(last) && now >= last && now - last
            >= INACTIVITY_TIMER_MS
        &&& self.last_summary_ms matches Some(summary) ==> self.last_activity_ms->0 > summary
    }
}

/// A keystroke session.
#[derive(Debug)]
pub struct Session {
    activity: KeystrokeActivity,
    event_log: EventLog,
    live: Option<LiveBuffer>,
    pane_has_activity: bool,
    last_activity_ms: Option<u64>,
    last_summary_ms: Option<u64>,
    focused_pane: Option<FocusedPane>,
    pending_summaries: Vec<Summary>,
    tab_names: HashMap<usize, String>,
}

impl View for Session {
    type V = SessionView;

    closed spec fn view(&self) -> SessionView {
        SessionView {
            activity: self.activity@,
            log: self.event_log@,
            live: model(self.live),
            pane_has_activity: self.pane_has_activity,
            last_activity_ms: self.last_activity_ms,
            last_summary_ms: self.last_summary_ms,
            focused_pane: self.focused_pane,
            pending_summaries: summary_views(self.pending_summaries@),
            tab_names: name_views(self.tab_names@),
        }
    }
}

impl Default for Session {
    fn default() -> (r: Self)
        ensures
            r@ == SessionView::fresh(LogView::empty()),
    {
        Session::new()
    }
}

impl Session {
    /// A session with an empty ring and an empty log.
    pub fn new() -> (r: Session)
        ensures
            r@ == SessionView::fresh(LogView::empty()),
    {
        Session::with_log(EventLog::new())
    }

    /// A session with an empty ring that continues `event_log`.
    pub fn with_log(event_log: EventLog) -> (r: Session)
        ensures
            r@ == SessionView::fresh(event_log@),
    {
        let r = Session {
            activity: KeystrokeActivity::new(),
            event_log,
            live: None,
            pane_has_activity: false,
            last_activity_ms: None,
            last_summary_ms: None,
            focused_pane: None,
            pending_summaries: Vec::new(),
            tab_names: HashMap::new(),
        };
        assert(summary_views(r.pending_summaries@) =~= Seq::empty());
        assert(name_views(r.tab_names@) =~= Map::empty());
        r
    }

    /// The activity ring.
    pub fn keystroke_activity(&self) -> (r: &KeystrokeActivity)
        ensures
            r@ == self@.activity,
    {
        &self.activity
    }

    /// The durable event log.
    pub fn event_log(&self) -> (r: &EventLog)
        ensures
            r@ == self@.log,
    {
        &self.event_log
    }

    /// Replace the durable event log, as after loading it from storage.
    pub fn set_event_log(&mut self, event_log: EventLog)
        ensures
            final(self)@ == (SessionView { log: event_log@, ..old(self)@ }),
    {
        self.event_log = event_log;
    }

    /// Whether the focused pane has seen activity since it got the focus.
    pub fn pane_has_activity(&self) -> (r: bool)
        ensures
            r == self@.pane_has_activity,
    {
        self.pane_has_activity
    }

    /// Note that the focus moved to another pane: the new pane has seen no
    /// activity yet.
    pub fn reset_pane_activity(&mut self)
        ensures
            final(self)@ == (SessionView { pane_has_activity: false, ..old(self)@ }),
    {
        self.pane_has_activity = false;
    }

    /// Feed one event, classified at time `now_ms`, to the ring and to the
    /// log.
    pub fn log_event(&mut self, event: KeystrokeEvent, now_ms: u64)
        ensures
            final(self)@ == old(self)@.log_event(event@, now_ms),
    {
        self.activity.push_event(event.clone());
        self.process_for_event_log(event, now_ms);
        self.pane_has_activity = true;
    }

    /// Apply `event` to the live text, or seal the live text and log the
    /// event.
    pub fn process_for_event_log(&mut self, event: KeystrokeEvent, now_ms: u64)
        ensures
            final(self)@ == (SessionView {
                log: recorded(old(self)@.log, old(self)@.live, event@, now_ms).0,
                live: recorded(old(self)@.log, old(self)@.live, event@, now_ms).1,
                last_activity_ms: Some(now_ms),
                ..old(self)@
            }),
    {
        let buffer = self.live.take();
        let (buffer, outcome) = apply_to_buffer(buffer, &event);
        self.live = buffer;
        match outcome {
            Disposition::Seal => {
                self.seal_and_log(event, now_ms);
            },
            _ => {},
        }
        self.last_activity_ms = Some(now_ms);
    }

    /// Send the live text, if any, to the log, and `event` after it.
    pub fn seal_and_log(&mut self, event: KeystrokeEvent, now_ms: u64)
        ensures
            final(self)@ == (SessionView {
                log: sealed(old(self)@.log, old(self)@.live, now_ms).append(
                    LogEntryView { event: event@, timestamp_ms: now_ms },
                ),
                live: None,
                ..old(self)@
            }),
    {
        self.seal_pending_text(now_ms);
        self.event_log.append(event, now_ms);
    }

    /// Send the live text, if any, to the log.
    pub fn seal_pending_text(&mut self, now_ms: u64)
        ensures
            final(self)@ == (SessionView {
                log: sealed(old(self)@.log, old(self)@.live, now_ms),
                live: None,
                ..old(self)@
            }),
    {
        match self.live.take() {
            Some(buffer) => {
                let text = buffer.into_text();
                self.event_log.append(KeystrokeEvent::TextTyped(text), now_ms);
            },
            None => {},
        }
    }

    /// Whether a timer that fires at `now_ms` should start a summary cycle:
    /// the session has been idle for the inactivity period and has seen
    /// activity since the last summary.
    pub fn due_for_summary(&self, now_ms: u64) -> (due: bool)
        ensures
            due == self@.due_for_summary(now_ms),
    {
        match self.last_activity_ms {
            Some(last) => {
                if now_ms >= last && now_ms - last >= INACTIVITY_TIMER_MS {
                    match self.last_summary_ms {
                        Some(summary) => last > summary,
                        None => true,
                    }
                } else {
                    false
                }
            },
            None => false,
        }
    }

    /// The summaries kept for display, oldest first.
    pub fn pending_summaries(&self) -> (r: &Vec<Summary>)
        ensures
            summary_views(r@) == self@.pending_summaries,
    {
        &self.pending_summaries
    }

    /// The pane that has the focus, if one was seen.
    pub fn focused_pane(&self) -> (r: Option<FocusedPane>)
        ensures
            r == self@.focused_pane,
    {
        self.focused_pane
    }

    /// Take note of the names of the tabs, given as position and name. Tabs
    /// without a name are left out.
    pub fn set_tab_names(&mut self, tabs: Vec<(usize, String)>)
        ensures
            final(self)@ == (SessionView {
                tab_names: crate::panes::named_tabs(tab_views(tabs@)),
                ..old(self)@
            }),
    {
        self.tab_names = tab_names_of(tabs);
    }

    /// Keep `summary` for display, dropping the oldest one if there are more
    /// than are shown.
    fn keep_summary(&mut self, summary: Summary)
        ensures
            final(self)@ == (SessionView {
                pending_summaries: kept_summaries(old(self)@.pending_summaries, summary@),
                ..old(self)@
            }),
    {
        let ghost before = self.pending_summaries@;
        self.pending_summaries.push(summary);
        assert(summary_views(self.pending_summaries@) =~= summary_views(before).push(summary@));
        if self.pending_summaries.len() > MAX_PENDING_SUMMARIES {
            let ghost full = self.pending_summaries@;
            self.pending_summaries.remove(0);
            assert(summary_views(self.pending_summaries@) =~= summary_views(full).drop_first());
        }
    }

    /// Seal the live text and summarize what the log has not consumed yet.
    /// Where something was summarized, the result is the persisted form of
    /// the log, which the caller is expected to store.
    pub fn summary_cycle(&mut self, now_ms: u64) -> (r: Option<Vec<u8>>)
        ensures
            final(self)@ == old(self)@.after_cycle(now_ms),
            match r {
                Some(bytes) => old(self)@.cycle_output(now_ms) == Some(bytes@),
                None => old(self)@.cycle_output(now_ms) is None,
            },
    {
        let (summarized, bytes) = self.cycle(now_ms);
        bytes
    }

    /// A summary cycle: whether anything was summarized, and the bytes to
    /// store.
    fn cycle(&mut self, now_ms: u64) -> (r: (bool, Option<Vec<u8>>))
        ensures
            final(self)@ == old(self)@.after_cycle(now_ms),
            r.0 == old(self)@.summarizes(now_ms),
            match r.1 {
                Some(bytes) => old(self)@.cycle_output(now_ms) == Some(bytes@),
                None => old(self)@.cycle_output(now_ms) is None,
            },
    {
        self.seal_pending_text(now_ms);
        if self.event_log.unconsumed_count() == 0 {
            return (false, None);
        }
        match generate_summary(&mut self.event_log) {
            Some(summary) => {
                self.keep_summary(summary);
            },
            None => {},
        }
        match self.event_log.serialize() {
            Ok(bytes) => (true, Some(bytes)),
            Err(_) => (true, None),
        }
    }

    /// The focus moves away from a pane that has seen activity: summarize
    /// what was done there.
    pub fn trigger_summary_for_pane_switch(&mut self, now_ms: u64) -> (r: Option<Vec<u8>>)
        ensures
            final(self)@ == old(self)@.after_cycle(now_ms),
            match r {
                Some(bytes) => old(self)@.cycle_output(now_ms) == Some(bytes@),
                None => old(self)@.cycle_output(now_ms) is None,
            },
    {
        self.summary_cycle(now_ms)
    }

    /// A timer fired at `now_ms`: run a summary cycle if one is due.
    pub fn on_timer(&mut self, now_ms: u64) -> (r: Option<Vec<u8>>)
        ensures
            final(self)@ == old(self)@.after_timer(now_ms),
            match r {
                Some(bytes) => old(self)@.due_for_summary(now_ms) && old(self)@.cycle_output(
                    now_ms,
                ) == Some(bytes@),
                None => !old(self)@.due_for_summary(now_ms) || old(self)@.cycle_output(now_ms)
                    is None,
            },
    {
        if !self.due_for_summary(now_ms) {
            return None;
        }
        let (summarized, bytes) = self.cycle(now_ms);
        if summarized {
            self.last_summary_ms = Some(now_ms);
        }
        bytes
    }

    /// The layout changed: find the pane that has the focus, and if it is
    /// another pane than before, summarize the work on the old one and log
    /// the change of focus. Where something was summarized, the result is
    /// the persisted form of the log, to be stored.
    pub fn handle_pane_update(
        &mut self,
        panes: &Vec<PaneSnapshot>,
        own_plugin_id: u32,
        now_ms: u64,
    ) -> (r: Option<Vec<u8>>)
        ensures
            none_focused(panes@, own_plugin_id) ==> final(self)@ == old(self)@ && r is None,
            forall|i: int|
                is_first_focused(panes@, own_plugin_id, i) ==> {
                    &&& final(self)@ == old(self)@.focus_on(panes@[i]@, now_ms)
                    &&& match r {
                        Some(bytes) => old(self)@.focus_output(panes@[i]@, now_ms) == Some(
                            bytes@,
                        ),
                        None => old(self)@.focus_output(panes@[i]@, now_ms) is None,
                    }
                },
    {
        let found = match find_focused(panes, own_plugin_id) {
            Some(found) => found,
            None => {
                return None;
            },
        };
        assert forall|i: int| is_first_focused(panes@, own_plugin_id, i) implies i == found by {
            if i < found {
                assert(!(eligible(panes@[i]@, own_plugin_id) && panes@[i].is_focused));
            } else if found < i {
                assert(!(eligible(panes@[found as int]@, own_plugin_id)
                    && panes@[found as int].is_focused));
            }
        }
        assert(!none_focused(panes@, own_plugin_id)) by {
            if none_focused(panes@, own_plugin_id) {
                assert(!(eligible(panes@[found as int]@, own_plugin_id)
                    && panes@[found as int].is_focused));
            }
        }
        let pane = &panes[found];
        let focus = FocusedPane {
            tab_index: pane.tab_index,
            pane_id: pane.id,
            is_plugin: pane.is_plugin,
        };
        let same = match self.focused_pane {
            Some(current) => current.tab_index == focus.tab_index && current.pane_id
                == focus.pane_id && current.is_plugin == focus.is_plugin,
            None => false,
        };
        if same {
            return None;
        }
        let event = focus_event_for(pane, &self.tab_names);
        let bytes = if self.pane_has_activity {
            self.trigger_summary_for_pane_switch(now_ms)
        } else {
            None
        };
        self.focused_pane = Some(focus);
        self.pane_has_activity = false;
        self.log_event(KeystrokeEvent::PaneFocused(event), now_ms);
        bytes
    }

    /// The stored log came back as the output of a command, in base64.
    /// Replace the log of the session if the command succeeded and its output
    /// decodes to a log. Says whether the log was replaced.
    pub fn handle_read_result(&mut self, exit_code: Option<i32>, stdout: &[u8]) -> (loaded: bool)
        ensures
            final(self)@ == old(self)@.after_load(exit_code, stdout@),
            loaded == (exit_code == Some(0i32) && stdout@.len() > 0 && parse_log(
                decoded(stdout@),
            ) is Log),
    {
        let succeeded = match exit_code {
            Some(code) => code == 0,
            None => false,
        };
        if !succeeded || stdout.len() == 0 {
            return false;
        }
        let bytes = base64_decode_bytes(stdout);
        match EventLog::deserialize(bytes.as_slice()) {
            Ok(log) => {
                self.event_log = log;
                true
            },
            Err(_) => false,
        }
    }
}

/// While only editing events arrive, the text on its way into the log is the
/// text that the edits produce, and the log does not change.
pub proof fn lemma_recorded_edits_live(
    log: LogView,
    live: Option<BufferView>,
    event: EventView,
    now: u64,
)
    requires
        is_editing(event),
    ensures
        recorded(log, live, event, now).0 == log,
        recorded(log, live, event, now).1 == edit(live, event),
{
}

/// The log and the live text after each of `events` in turn, each with the
/// time at which it arrived.
pub open spec fn recorded_all(
    log: LogView,
    live: Option<BufferView>,
    events: Seq<(EventView, u64)>,
) -> (LogView, Option<BufferView>)
    decreases events.len(),
{
    if events.len() == 0 {
        (log, live)
    } else {
        let before = recorded_all(log, live, events.drop_last());
        recorded(before.0, before.1, events.last().0, events.last().1)
    }
}

/// Starting without live text, after any sequence of editing events (typed
/// text, Backspace, Delete, Left, Right, Home, End) the text on its way into
/// the log and its cursor are those of replaying the edits, scalar by scalar,
/// on an empty text; the log has not changed.
pub proof fn lemma_recorded_text_is_replay(log: LogView, events: Seq<(EventView, u64)>)
    requires
        forall|i: int|
            0 <= i < events.len() ==> is_editing((#[trigger] events[i]).0),
    ensures
        recorded_all(log, None, events) == (
            log,
            replay(events.map_values(|e: (EventView, u64)| e.0)),
        ),
    decreases events.len(),
{
    let keys = events.map_values(|e: (EventView, u64)| e.0);
    if events.len() > 0 {
        lemma_recorded_text_is_replay(log, events.drop_last());
        assert(events.drop_last().map_values(|e: (EventView, u64)| e.0) =~= keys.drop_last());
        let before = recorded_all(log, None, events.drop_last());
        lemma_recorded_edits_live(before.0, before.1, events.last().0, events.last().1);
    }
}

/// Sealing never logs empty text: of the entries of the log after an event,
/// each is an entry that the log held before, or the event itself, or typed
/// text of at least one scalar.
pub proof fn lemma_recorded_logs_no_empty_text(
    log: LogView,
    live: Option<BufferView>,
    event: EventView,
    now: u64,
)
    requires
        log.wf(),
        live matches Some(b) ==> b.wf(),
    ensures
        forall|i: int|
            #![trigger recorded(log, live, event, now).0.entries[i]]
            0 <= i < recorded(log, live, event, now).0.entries.len() ==> {
                let entry = recorded(log, live, event, now).0.entries[i];
                ||| log.entries.contains(entry)
                ||| (entry.event == event && !(event is TextTyped))
                ||| (entry.event is TextTyped && typed_nonempty(entry.event))
            },
{
    let after = recorded(log, live, event, now).0;
    let middle = sealed(log, live, now);
    assert forall|i: int| 0 <= i < middle.entries.len() implies (log.entries.contains(
        #[trigger] middle.entries[i],
    ) || (middle.entries[i].event is TextTyped && typed_nonempty(middle.entries[i].event))) by {
        if live is Some {
            lemma_append_keeps_or_adds(
                log,
                LogEntryView { event: EventView::TextTyped(live->0.text), timestamp_ms: now },
                i,
            );
        }
    }
    assert forall|i: int| 0 <= i < after.entries.len() implies ({
        let entry = #[trigger] after.entries[i];
        ||| log.entries.contains(entry)
        ||| (entry.event == event && !(event is TextTyped))
        ||| (entry.event is TextTyped && typed_nonempty(entry.event))
    }) by {
        if disposition(live is Some, event) == Disposition::Seal {
            lemma_append_keeps_or_adds(middle, LogEntryView { event, timestamp_ms: now }, i);
            let entry = after.entries[i];
            if middle.entries.contains(entry) {
                let j = choose|j: int| 0 <= j < middle.entries.len() && middle.entries[j] == entry;
                assert(log.entries.contains(middle.entries[j]) || (middle.entries[j].event
                    is TextTyped && typed_nonempty(middle.entries[j].event)));
            }
        } else {
            assert(log.entries[i] == after.entries[i]);
        }
    }
}

/// Of the entries of a log after an append, each was in the log before or is
/// the appended one.
pub proof fn lemma_append_keeps_or_adds(log: LogView, entry: LogEntryView, i: int)
    requires
        log.wf(),
        0 <= i < log.append(entry).entries.len(),
    ensures
        log.entries.contains(log.append(entry).entries[i]) || log.append(entry).entries[i]
            == entry,
{
    let after = log.append(entry).entries;
    if i < after.len() - 1 {
        if log.entries.len() >= crate::event_log::EVENT_LOG_CAPACITY {
            if log.consumed > 0 {
                assert(after[i] == log.entries[i + log.consumed]);
            } else {
                assert(after[i] == log.entries[i + 1]);
            }
        } else {
            assert(after[i] == log.entries[i]);
        }
    }
}

} // verus!
