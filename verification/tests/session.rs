use std::collections::HashMap;
use crumbeez::panes::{find_focused, tab_name_for, tab_names_of, FocusedPane, PaneSnapshot};
use crumbeez::{
    base64_encode, EditControlEvent, EventLog, KeystrokeEvent, LogEntry, NavDirection,
    NavigationEvent, PaneFocusedEvent, Session,
};

fn text(s: &str) -> KeystrokeEvent {
    KeystrokeEvent::TextTyped(s.to_string())
}

fn backspace() -> KeystrokeEvent {
    KeystrokeEvent::EditControl(EditControlEvent::Backspace { count: 1 })
}

fn enter() -> KeystrokeEvent {
    KeystrokeEvent::EditControl(EditControlEvent::Enter)
}

fn nav(direction: NavDirection) -> KeystrokeEvent {
    KeystrokeEvent::Navigation(NavigationEvent {
        direction,
        count: 1,
        with_shift: false,
        with_ctrl: false,
    })
}

fn logged(session: &Session) -> Vec<LogEntry> {
    let log = session.event_log();
    (0..log.total_count())
        .map(|i| log.entry(i).unwrap().clone())
        .collect()
}

#[test]
fn text_reaches_the_log_when_it_is_sealed() {
    let mut session = Session::new();
    session.log_event(text("hel"), 1);
    session.log_event(text("lo"), 2);
    assert!(logged(&session).is_empty());
    assert!(session.pane_has_activity());
    session.log_event(enter(), 3);
    assert_eq!(
        logged(&session),
        vec![
            LogEntry { event: text("hello"), timestamp_ms: 3 },
            LogEntry { event: enter(), timestamp_ms: 3 },
        ]
    );
}

#[test]
fn the_log_gets_the_text_net_of_corrections() {
    let mut session = Session::new();
    session.log_event(text("wrold"), 1);
    session.log_event(nav(NavDirection::Left), 2);
    session.log_event(nav(NavDirection::Left), 2);
    session.log_event(backspace(), 3);
    session.log_event(backspace(), 3);
    session.log_event(text("or"), 4);
    session.log_event(nav(NavDirection::Down), 5);
    assert_eq!(
        logged(&session),
        vec![
            LogEntry { event: text("world"), timestamp_ms: 5 },
            LogEntry { event: nav(NavDirection::Down), timestamp_ms: 5 },
        ]
    );
}

#[test]
fn erased_text_never_reaches_the_log() {
    let mut session = Session::new();
    session.log_event(text("ab"), 1);
    session.log_event(backspace(), 2);
    session.log_event(backspace(), 3);
    session.log_event(enter(), 4);
    assert_eq!(logged(&session), vec![LogEntry { event: enter(), timestamp_ms: 4 }]);
    assert_eq!(session.keystroke_activity().events().len(), 1);
}

#[test]
fn editing_keys_without_text_are_shown_but_not_logged() {
    let mut session = Session::new();
    session.log_event(nav(NavDirection::Left), 1);
    session.log_event(nav(NavDirection::Home), 2);
    session.log_event(backspace(), 3);
    assert!(logged(&session).is_empty());
    assert_eq!(session.keystroke_activity().events().len(), 3);
    session.log_event(nav(NavDirection::Up), 4);
    assert_eq!(
        logged(&session),
        vec![LogEntry { event: nav(NavDirection::Up), timestamp_ms: 4 }]
    );
}

#[test]
fn seal_pending_text_logs_the_live_text_once() {
    let mut session = Session::new();
    session.log_event(text("abc"), 1);
    session.seal_pending_text(9);
    session.seal_pending_text(10);
    assert_eq!(logged(&session), vec![LogEntry { event: text("abc"), timestamp_ms: 9 }]);
    session.log_event(text("d"), 11);
    session.seal_and_log(enter(), 12);
    assert_eq!(
        logged(&session),
        vec![
            LogEntry { event: text("abc"), timestamp_ms: 9 },
            LogEntry { event: text("d"), timestamp_ms: 12 },
            LogEntry { event: enter(), timestamp_ms: 12 },
        ]
    );
}

#[test]
fn summaries_are_due_after_ten_idle_seconds() {
    let mut session = Session::new();
    assert!(!session.due_for_summary(1_000_000));
    session.log_event(enter(), 5_000);
    assert!(!session.due_for_summary(14_999));
    assert!(session.due_for_summary(15_000));
    assert!(!session.due_for_summary(1_000));
}


fn pane(tab_index: usize, id: u32, focused: bool) -> PaneSnapshot {
    PaneSnapshot {
        tab_index,
        id,
        is_plugin: false,
        is_focused: focused,
        is_selectable: true,
        is_suppressed: false,
        title: format!("pane {}", id),
        terminal_command: Some("/bin/sh".to_string()),
        plugin_url: None,
    }
}

#[test]
fn the_first_eligible_focused_pane_is_found() {
    let mut own = pane(0, 7, true);
    own.is_plugin = true;
    let mut marked = pane(0, 8, true);
    marked.is_plugin = true;
    marked.plugin_url = Some("file:/plugins/crumbeez.wasm".to_string());
    let mut hidden = pane(0, 9, true);
    hidden.is_suppressed = true;
    let mut fixed = pane(0, 10, true);
    fixed.is_selectable = false;
    let mut other_plugin = pane(1, 11, true);
    other_plugin.is_plugin = true;
    other_plugin.plugin_url = Some("zellij:tab-bar".to_string());
    let panes = vec![
        own,
        marked,
        hidden,
        fixed,
        pane(1, 1, false),
        other_plugin,
        pane(1, 2, true),
    ];
    assert_eq!(find_focused(&panes, 7), Some(5));
    assert_eq!(find_focused(&panes[..5].to_vec(), 7), None);
    assert_eq!(find_focused(&panes, 99), Some(0));
    assert_eq!(find_focused(&Vec::new(), 7), None);
    // a terminal pane is not left out for its number or its title
    let mut terminal = pane(0, 7, true);
    terminal.title = "crumbeez".to_string();
    assert_eq!(find_focused(&vec![terminal], 7), Some(0));
}

#[test]
fn tab_names() {
    let names = tab_names_of(vec![
        (0, "code".to_string()),
        (1, String::new()),
        (2, "logs".to_string()),
        (0, "edit".to_string()),
        (2, String::new()),
    ]);
    let expected: HashMap<usize, String> =
        [(0, "edit".to_string()), (2, "logs".to_string())].into_iter().collect();
    assert_eq!(names, expected);
    assert_eq!(tab_name_for(&names, 0), "edit");
    assert_eq!(tab_name_for(&names, 2), "logs");
    assert_eq!(tab_name_for(&names, 1), "tab 2");
    assert_eq!(tab_name_for(&HashMap::new(), 0), "tab 1");
    assert_eq!(tab_name_for(&HashMap::new(), 41), "tab 42");
    assert_eq!(tab_name_for(&HashMap::new(), usize::MAX - 1), format!("tab {}", usize::MAX));
}

#[test]
fn a_change_of_focus_is_logged() {
    let mut session = Session::new();
    session.set_tab_names(vec![(0, "code".to_string())]);
    let panes = vec![pane(0, 1, true), pane(1, 2, false)];
    assert_eq!(session.handle_pane_update(&panes, 7, 100), None);
    assert_eq!(
        session.focused_pane(),
        Some(FocusedPane { tab_index: 0, pane_id: 1, is_plugin: false })
    );
    let focus_1 = KeystrokeEvent::PaneFocused(PaneFocusedEvent {
        tab_name: Some("code".to_string()),
        pane_title: "pane 1".to_string(),
        command: Some("/bin/sh".to_string()),
        is_plugin: false,
    });
    assert_eq!(
        logged(&session),
        vec![LogEntry { event: focus_1.clone(), timestamp_ms: 100 }]
    );
    assert!(session.pane_has_activity());

    // the same focus again changes nothing
    assert_eq!(session.handle_pane_update(&panes, 7, 200), None);
    assert_eq!(logged(&session).len(), 1);
    // no focus at all changes nothing
    assert_eq!(session.handle_pane_update(&vec![pane(0, 1, false)], 7, 250), None);
    assert_eq!(logged(&session).len(), 1);

    // text typed in the first pane is sealed and summarized when the focus moves on
    session.log_event(text("ls"), 300);
    let panes = vec![pane(0, 1, false), pane(1, 2, true)];
    let bytes = session.handle_pane_update(&panes, 7, 400).unwrap();
    let focus_2 = KeystrokeEvent::PaneFocused(PaneFocusedEvent {
        tab_name: Some("tab 2".to_string()),
        pane_title: "pane 2".to_string(),
        command: Some("/bin/sh".to_string()),
        is_plugin: false,
    });
    assert_eq!(
        logged(&session),
        vec![
            LogEntry { event: focus_1.clone(), timestamp_ms: 100 },
            LogEntry { event: text("ls"), timestamp_ms: 400 },
            LogEntry { event: focus_2, timestamp_ms: 400 },
        ]
    );
    assert_eq!(session.event_log().consumed_count(), 2);
    assert_eq!(session.pending_summaries().len(), 1);
    assert_eq!(session.pending_summaries()[0].events_consumed(), 2);
    assert_eq!(
        *session.pending_summaries()[0].event_types(),
        vec![("TextTyped".to_string(), 1), ("PaneFocused".to_string(), 1)]
    );
    // what is handed out to be stored is the log as it was after the summary
    let stored = EventLog::deserialize(&bytes).unwrap();
    assert_eq!(stored.total_count(), 2);
    assert_eq!(stored.consumed_count(), 2);
    assert_eq!(stored.entry(0).unwrap().event, focus_1);
}

#[test]
fn the_timer_summarizes_idle_activity_once() {
    let mut session = Session::new();
    assert_eq!(session.on_timer(50_000), None);
    session.log_event(text("abc"), 1_000);
    assert_eq!(session.on_timer(5_000), None);
    assert!(logged(&session).is_empty());
    let bytes = session.on_timer(11_000).unwrap();
    assert_eq!(logged(&session), vec![LogEntry { event: text("abc"), timestamp_ms: 11_000 }]);
    assert_eq!(session.event_log().unconsumed_count(), 0);
    assert_eq!(EventLog::deserialize(&bytes).unwrap().consumed_count(), 1);
    assert_eq!(session.pending_summaries().len(), 1);
    // no activity since the summary
    assert_eq!(session.on_timer(30_000), None);
    assert!(!session.due_for_summary(30_000));
    session.log_event(enter(), 40_000);
    assert!(session.on_timer(50_000).is_some());
    assert_eq!(session.pending_summaries().len(), 2);
}

#[test]
fn only_the_newest_ten_summaries_are_kept() {
    let mut session = Session::new();
    for i in 0..12u64 {
        for _ in 0..=i {
            session.log_event(enter(), i);
        }
        assert!(session.summary_cycle(i).is_some());
    }
    assert_eq!(session.summary_cycle(99), None);
    let kept: Vec<usize> = session
        .pending_summaries()
        .iter()
        .map(|s| s.events_consumed())
        .collect();
    assert_eq!(kept, vec![3, 4, 5, 6, 7, 8, 9, 10, 11, 12]);
}

#[test]
fn a_stored_log_is_taken_up_when_it_loads() {
    let mut stored = EventLog::new();
    stored.append(text("old"), 1);
    stored.append(enter(), 2);
    stored.consume(1);
    let output = base64_encode(&stored.serialize().unwrap());
    let mut wrapped = output.clone().into_bytes();
    wrapped.insert(10, b'\n');
    wrapped.push(b'\n');

    let mut session = Session::new();
    assert!(!session.handle_read_result(Some(1), &wrapped));
    assert!(!session.handle_read_result(None, &wrapped));
    assert!(!session.handle_read_result(Some(0), b""));
    assert!(!session.handle_read_result(Some(0), b"Zm9v"));
    assert_eq!(session.event_log().total_count(), 0);
    assert!(session.handle_read_result(Some(0), &wrapped));
    assert_eq!(
        logged(&session),
        vec![
            LogEntry { event: text("old"), timestamp_ms: 1 },
            LogEntry { event: enter(), timestamp_ms: 2 },
        ]
    );
    assert_eq!(session.event_log().consumed_count(), 1);
}
