use crumbeez::{
    EditControlEvent, KeystrokeActivity, KeystrokeEvent, NavDirection, NavigationEvent,
    PaneFocusedEvent, ShortcutEvent, ShortcutKey, SystemKeyEvent, KEYSTROKE_LOG_CAPACITY,
};

fn text(s: &str) -> KeystrokeEvent {
    KeystrokeEvent::TextTyped(s.to_string())
}

fn backspace() -> KeystrokeEvent {
    KeystrokeEvent::EditControl(EditControlEvent::Backspace { count: 1 })
}

fn delete() -> KeystrokeEvent {
    KeystrokeEvent::EditControl(EditControlEvent::Delete { count: 1 })
}

fn enter() -> KeystrokeEvent {
    KeystrokeEvent::EditControl(EditControlEvent::Enter)
}

fn nav_with(direction: NavDirection, count: usize, shift: bool, ctrl: bool) -> KeystrokeEvent {
    KeystrokeEvent::Navigation(NavigationEvent {
        direction,
        count,
        with_shift: shift,
        with_ctrl: ctrl,
    })
}

fn nav(direction: NavDirection) -> KeystrokeEvent {
    nav_with(direction, 1, false, false)
}

fn entries(activity: &KeystrokeActivity) -> Vec<KeystrokeEvent> {
    activity.events().iter().cloned().collect()
}

#[test]
fn a_new_ring_is_empty() {
    let activity = KeystrokeActivity::new();
    assert!(activity.events().is_empty());
}

#[test]
fn typing_then_erasing_everything_leaves_only_the_sealing_key() {
    let mut activity = KeystrokeActivity::new();
    activity.push_event(text("ab"));
    activity.push_event(backspace());
    activity.push_event(backspace());
    activity.push_event(enter());
    assert_eq!(entries(&activity), vec![enter()]);
}

#[test]
fn five_lefts_collapse_into_one_entry() {
    let mut activity = KeystrokeActivity::new();
    for _ in 0..5 {
        activity.push_event(nav(NavDirection::Left));
    }
    assert_eq!(
        entries(&activity),
        vec![nav_with(NavDirection::Left, 5, false, false)]
    );
}

#[test]
fn navigation_merges_only_with_the_same_direction_and_modifiers() {
    let mut activity = KeystrokeActivity::new();
    activity.push_event(nav_with(NavDirection::Up, 2, false, false));
    activity.push_event(nav_with(NavDirection::Up, 3, false, false));
    activity.push_event(nav_with(NavDirection::Up, 1, true, false));
    activity.push_event(nav_with(NavDirection::Down, 1, true, false));
    activity.push_event(nav_with(NavDirection::Down, 1, true, true));
    assert_eq!(
        entries(&activity),
        vec![
            nav_with(NavDirection::Up, 5, false, false),
            nav_with(NavDirection::Up, 1, true, false),
            nav_with(NavDirection::Down, 1, true, false),
            nav_with(NavDirection::Down, 1, true, true),
        ]
    );
}

#[test]
fn backspaces_and_deletes_outside_text_add_up_their_counts() {
    let mut activity = KeystrokeActivity::new();
    activity.push_event(backspace());
    activity.push_event(KeystrokeEvent::EditControl(
        EditControlEvent::Backspace { count: 3 },
    ));
    activity.push_event(delete());
    activity.push_event(delete());
    activity.push_event(backspace());
    assert_eq!(
        entries(&activity),
        vec![
            KeystrokeEvent::EditControl(EditControlEvent::Backspace { count: 4 }),
            KeystrokeEvent::EditControl(EditControlEvent::Delete { count: 2 }),
            backspace(),
        ]
    );
}

#[test]
fn counts_that_would_overflow_are_not_merged() {
    let mut activity = KeystrokeActivity::new();
    activity.push_event(nav_with(NavDirection::Up, usize::MAX, false, false));
    activity.push_event(nav_with(NavDirection::Up, 1, false, false));
    assert_eq!(
        entries(&activity),
        vec![
            nav_with(NavDirection::Up, usize::MAX, false, false),
            nav_with(NavDirection::Up, 1, false, false),
        ]
    );
}

#[test]
fn consecutive_text_is_one_entry() {
    let mut activity = KeystrokeActivity::new();
    activity.push_event(text("h"));
    activity.push_event(text("é"));
    activity.push_event(text("y"));
    assert_eq!(entries(&activity), vec![text("héy")]);
}

#[test]
fn editing_keys_change_the_live_text() {
    let mut activity = KeystrokeActivity::new();
    activity.push_event(text("hxllo"));
    activity.push_event(nav_with(NavDirection::Left, 3, false, false));
    activity.push_event(backspace());
    activity.push_event(text("e"));
    activity.push_event(nav(NavDirection::End));
    activity.push_event(text("!"));
    activity.push_event(nav(NavDirection::Home));
    activity.push_event(delete());
    activity.push_event(text("H"));
    assert_eq!(entries(&activity), vec![text("Hello!")]);
}

#[test]
fn multi_byte_scalars_are_deleted_whole() {
    let mut activity = KeystrokeActivity::new();
    activity.push_event(text("a😀é"));
    activity.push_event(backspace());
    assert_eq!(entries(&activity), vec![text("a😀")]);
    activity.push_event(backspace());
    assert_eq!(entries(&activity), vec![text("a")]);
    activity.push_event(nav(NavDirection::Left));
    activity.push_event(text("ß"));
    activity.push_event(nav(NavDirection::Right));
    activity.push_event(nav(NavDirection::Left));
    activity.push_event(delete());
    assert_eq!(entries(&activity), vec![text("ß")]);
}

#[test]
fn word_moves_with_ctrl() {
    let mut activity = KeystrokeActivity::new();
    activity.push_event(text("one two"));
    activity.push_event(nav_with(NavDirection::Left, 1, false, true));
    activity.push_event(text("X"));
    activity.push_event(nav_with(NavDirection::Left, 1, false, true));
    activity.push_event(nav_with(NavDirection::Left, 1, false, true));
    activity.push_event(text("Y"));
    activity.push_event(nav_with(NavDirection::Right, 1, false, true));
    activity.push_event(text("Z"));
    assert_eq!(entries(&activity), vec![text("Yone ZXtwo")]);
}

#[test]
fn backspace_at_the_start_and_delete_at_the_end_are_swallowed() {
    let mut activity = KeystrokeActivity::new();
    activity.push_event(text("ab"));
    activity.push_event(delete());
    activity.push_event(nav(NavDirection::Home));
    activity.push_event(backspace());
    assert_eq!(entries(&activity), vec![text("ab")]);
}

#[test]
fn sealing_events_freeze_the_text() {
    let mut activity = KeystrokeActivity::new();
    activity.push_event(text("ab"));
    activity.push_event(nav(NavDirection::Up));
    activity.push_event(backspace());
    activity.push_event(text("cd"));
    activity.push_event(KeystrokeEvent::Escape);
    activity.push_event(text("e"));
    assert_eq!(
        entries(&activity),
        vec![
            text("ab"),
            nav(NavDirection::Up),
            backspace(),
            text("cd"),
            KeystrokeEvent::Escape,
            text("e"),
        ]
    );
}

#[test]
fn every_other_kind_seals() {
    let shortcut = KeystrokeEvent::Shortcut(ShortcutEvent {
        key: ShortcutKey::Char('s'),
        ctrl: true,
        alt: false,
        shift: false,
        super_key: false,
    });
    let pane = KeystrokeEvent::PaneFocused(PaneFocusedEvent {
        tab_name: Some("tab 1".to_string()),
        pane_title: "nvim".to_string(),
        command: None,
        is_plugin: false,
    });
    let sealing = vec![
        enter(),
        KeystrokeEvent::EditControl(EditControlEvent::Tab),
        KeystrokeEvent::EditControl(EditControlEvent::Insert),
        KeystrokeEvent::Escape,
        KeystrokeEvent::FunctionKey(5),
        KeystrokeEvent::SystemKey(SystemKeyEvent::CapsLock),
        shortcut,
        pane,
        nav(NavDirection::Down),
        nav(NavDirection::PageUp),
        nav(NavDirection::PageDown),
    ];
    for event in sealing {
        let mut activity = KeystrokeActivity::new();
        activity.push_event(text("a"));
        activity.push_event(event.clone());
        activity.push_event(text("b"));
        assert_eq!(entries(&activity), vec![text("a"), event, text("b")]);
    }
}

#[test]
fn empty_text_starts_nothing() {
    let mut activity = KeystrokeActivity::new();
    activity.push_event(text(""));
    assert!(activity.events().is_empty());
    activity.push_event(backspace());
    assert_eq!(entries(&activity), vec![backspace()]);
    activity.push_event(text("a"));
    activity.push_event(text(""));
    assert_eq!(entries(&activity), vec![backspace(), text("a")]);
}

#[test]
fn the_ring_keeps_the_newest_two_hundred() {
    let mut activity = KeystrokeActivity::new();
    for i in 0..=KEYSTROKE_LOG_CAPACITY {
        activity.push_event(KeystrokeEvent::FunctionKey((i % 256) as u8));
    }
    assert_eq!(activity.events().len(), 200);
    assert_eq!(activity.events()[0], KeystrokeEvent::FunctionKey(1));
    assert_eq!(activity.events()[199], KeystrokeEvent::FunctionKey(200));
}

#[test]
fn live_text_in_a_full_ring_stays_at_the_tail() {
    let mut activity = KeystrokeActivity::new();
    for i in 0..KEYSTROKE_LOG_CAPACITY {
        activity.push_event(KeystrokeEvent::FunctionKey((i % 256) as u8));
    }
    activity.push_event(text("a"));
    activity.push_event(text("b"));
    activity.push_event(backspace());
    assert_eq!(activity.events().len(), 200);
    assert_eq!(activity.events()[0], KeystrokeEvent::FunctionKey(1));
    assert_eq!(activity.events()[199], text("a"));
    activity.push_event(backspace());
    assert_eq!(activity.events().len(), 199);
    assert_eq!(activity.events()[198], KeystrokeEvent::FunctionKey(199));
}

#[test]
fn clear_forgets_entries_and_live_text() {
    let mut activity = KeystrokeActivity::new();
    activity.push_event(text("ab"));
    activity.clear();
    assert!(activity.events().is_empty());
    activity.push_event(backspace());
    assert_eq!(entries(&activity), vec![backspace()]);
}

#[test]
fn try_coalesce_reports_whether_it_merged() {
    let mut last = nav_with(NavDirection::Left, 2, false, false);
    assert!(crumbeez::try_coalesce(
        &mut last,
        &nav_with(NavDirection::Left, 3, false, false)
    ));
    assert_eq!(last, nav_with(NavDirection::Left, 5, false, false));
    assert!(!crumbeez::try_coalesce(&mut last, &backspace()));
    assert_eq!(last, nav_with(NavDirection::Left, 5, false, false));
    let mut last = text("a");
    assert!(!crumbeez::try_coalesce(&mut last, &text("b")));
    assert_eq!(last, text("a"));
}
