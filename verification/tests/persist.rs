use crumbeez::codec::{
    put_bool, put_count, put_optional_text, put_text, put_u32, put_u64, put_u8, read_bool,
    read_count, read_optional_text, read_text, read_u32, read_u64, read_u8,
};
use crumbeez::{
    EditControlEvent, EventLog, EventLogError, KeystrokeEvent, LogEntry, NavDirection,
    NavigationEvent, PaneFocusedEvent, ShortcutEvent, ShortcutKey, SystemKeyEvent,
};
use serde::ser::{Serialize, SerializeStruct, SerializeStructVariant, Serializer};
use std::collections::HashMap;

fn entries_of(log: &EventLog) -> Vec<LogEntry> {
    (0..log.total_count())
        .map(|i| log.entry(i).unwrap().clone())
        .collect()
}

fn every_kind() -> Vec<KeystrokeEvent> {
    let mut events = vec![
        KeystrokeEvent::TextTyped("héllo 😀".to_string()),
        KeystrokeEvent::TextTyped(String::new()),
        KeystrokeEvent::Escape,
        KeystrokeEvent::FunctionKey(12),
        KeystrokeEvent::FunctionKey(255),
        KeystrokeEvent::EditControl(EditControlEvent::Enter),
        KeystrokeEvent::EditControl(EditControlEvent::Tab),
        KeystrokeEvent::EditControl(EditControlEvent::Insert),
        KeystrokeEvent::EditControl(EditControlEvent::Backspace { count: 3 }),
        KeystrokeEvent::EditControl(EditControlEvent::Delete { count: usize::MAX }),
        KeystrokeEvent::PaneFocused(PaneFocusedEvent {
            tab_name: Some("tab 1".to_string()),
            pane_title: "nvim README.md".to_string(),
            command: Some("/bin/bash".to_string()),
            is_plugin: false,
        }),
        KeystrokeEvent::PaneFocused(PaneFocusedEvent {
            tab_name: None,
            pane_title: String::new(),
            command: None,
            is_plugin: true,
        }),
    ];
    for direction in [
        NavDirection::Left,
        NavDirection::Right,
        NavDirection::Up,
        NavDirection::Down,
        NavDirection::Home,
        NavDirection::End,
        NavDirection::PageUp,
        NavDirection::PageDown,
    ] {
        events.push(KeystrokeEvent::Navigation(NavigationEvent {
            direction,
            count: 7,
            with_shift: true,
            with_ctrl: false,
        }));
    }
    for key in [
        SystemKeyEvent::CapsLock,
        SystemKeyEvent::ScrollLock,
        SystemKeyEvent::NumLock,
        SystemKeyEvent::PrintScreen,
        SystemKeyEvent::Pause,
        SystemKeyEvent::Menu,
    ] {
        events.push(KeystrokeEvent::SystemKey(key));
    }
    for key in [
        ShortcutKey::Char('s'),
        ShortcutKey::Char('≡'),
        ShortcutKey::Char('😀'),
        ShortcutKey::Enter,
        ShortcutKey::Tab,
        ShortcutKey::Backspace,
        ShortcutKey::Delete,
        ShortcutKey::Esc,
        ShortcutKey::Insert,
        ShortcutKey::Left,
        ShortcutKey::Right,
        ShortcutKey::Up,
        ShortcutKey::Down,
        ShortcutKey::Home,
        ShortcutKey::End,
        ShortcutKey::PageUp,
        ShortcutKey::PageDown,
        ShortcutKey::F(1),
        ShortcutKey::F(24),
    ] {
        events.push(KeystrokeEvent::Shortcut(ShortcutEvent {
            key,
            ctrl: true,
            alt: false,
            shift: true,
            super_key: false,
        }));
    }
    events
}


/// A value as serde sees it when its type derives `Serialize`: the calls
/// below are the ones that the derive makes for a type of this shape.
struct Wire<'a, T>(&'a T);

struct Header {
    version: u32,
    consumed_count: u64,
}

impl Serialize for Header {
    fn serialize<S: Serializer>(&self, s: S) -> Result<S::Ok, S::Error> {
        let mut fields = s.serialize_struct("LogHeader", 2)?;
        fields.serialize_field("version", &self.version)?;
        fields.serialize_field("consumed_count", &self.consumed_count)?;
        fields.end()
    }
}

impl Serialize for Wire<'_, LogEntry> {
    fn serialize<S: Serializer>(&self, s: S) -> Result<S::Ok, S::Error> {
        let mut fields = s.serialize_struct("LogEntry", 2)?;
        fields.serialize_field("event", &Wire(&self.0.event))?;
        fields.serialize_field("timestamp_ms", &self.0.timestamp_ms)?;
        fields.end()
    }
}

impl Serialize for Wire<'_, KeystrokeEvent> {
    fn serialize<S: Serializer>(&self, s: S) -> Result<S::Ok, S::Error> {
        let name = "KeystrokeEvent";
        match self.0 {
            KeystrokeEvent::TextTyped(t) => s.serialize_newtype_variant(name, 0, "TextTyped", t),
            KeystrokeEvent::Shortcut(x) => {
                s.serialize_newtype_variant(name, 1, "Shortcut", &Wire(x))
            }
            KeystrokeEvent::Navigation(x) => {
                s.serialize_newtype_variant(name, 2, "Navigation", &Wire(x))
            }
            KeystrokeEvent::EditControl(x) => {
                s.serialize_newtype_variant(name, 3, "EditControl", &Wire(x))
            }
            KeystrokeEvent::Escape => s.serialize_unit_variant(name, 4, "Escape"),
            KeystrokeEvent::FunctionKey(n) => {
                s.serialize_newtype_variant(name, 5, "FunctionKey", n)
            }
            KeystrokeEvent::SystemKey(x) => {
                s.serialize_newtype_variant(name, 6, "SystemKey", &Wire(x))
            }
            KeystrokeEvent::PaneFocused(x) => {
                s.serialize_newtype_variant(name, 7, "PaneFocused", &Wire(x))
            }
        }
    }
}

impl Serialize for Wire<'_, ShortcutEvent> {
    fn serialize<S: Serializer>(&self, s: S) -> Result<S::Ok, S::Error> {
        let mut fields = s.serialize_struct("ShortcutEvent", 5)?;
        fields.serialize_field("key", &Wire(&self.0.key))?;
        fields.serialize_field("ctrl", &self.0.ctrl)?;
        fields.serialize_field("alt", &self.0.alt)?;
        fields.serialize_field("shift", &self.0.shift)?;
        fields.serialize_field("super_key", &self.0.super_key)?;
        fields.end()
    }
}

impl Serialize for Wire<'_, ShortcutKey> {
    fn serialize<S: Serializer>(&self, s: S) -> Result<S::Ok, S::Error> {
        let name = "ShortcutKey";
        match self.0 {
            ShortcutKey::Char(c) => s.serialize_newtype_variant(name, 0, "Char", c),
            ShortcutKey::Enter => s.serialize_unit_variant(name, 1, "Enter"),
            ShortcutKey::Tab => s.serialize_unit_variant(name, 2, "Tab"),
            ShortcutKey::Backspace => s.serialize_unit_variant(name, 3, "Backspace"),
            ShortcutKey::Delete => s.serialize_unit_variant(name, 4, "Delete"),
            ShortcutKey::Esc => s.serialize_unit_variant(name, 5, "Esc"),
            ShortcutKey::Insert => s.serialize_unit_variant(name, 6, "Insert"),
            ShortcutKey::Left => s.serialize_unit_variant(name, 7, "Left"),
            ShortcutKey::Right => s.serialize_unit_variant(name, 8, "Right"),
            ShortcutKey::Up => s.serialize_unit_variant(name, 9, "Up"),
            ShortcutKey::Down => s.serialize_unit_variant(name, 10, "Down"),
            ShortcutKey::Home => s.serialize_unit_variant(name, 11, "Home"),
            ShortcutKey::End => s.serialize_unit_variant(name, 12, "End"),
            ShortcutKey::PageUp => s.serialize_unit_variant(name, 13, "PageUp"),
            ShortcutKey::PageDown => s.serialize_unit_variant(name, 14, "PageDown"),
            ShortcutKey::F(n) => s.serialize_newtype_variant(name, 15, "F", n),
        }
    }
}

impl Serialize for Wire<'_, NavigationEvent> {
    fn serialize<S: Serializer>(&self, s: S) -> Result<S::Ok, S::Error> {
        let mut fields = s.serialize_struct("NavigationEvent", 4)?;
        fields.serialize_field("direction", &Wire(&self.0.direction))?;
        fields.serialize_field("count", &self.0.count)?;
        fields.serialize_field("with_shift", &self.0.with_shift)?;
        fields.serialize_field("with_ctrl", &self.0.with_ctrl)?;
        fields.end()
    }
}

impl Serialize for Wire<'_, NavDirection> {
    fn serialize<S: Serializer>(&self, s: S) -> Result<S::Ok, S::Error> {
        let (index, variant) = match self.0 {
            NavDirection::Left => (0, "Left"),
            NavDirection::Right => (1, "Right"),
            NavDirection::Up => (2, "Up"),
            NavDirection::Down => (3, "Down"),
            NavDirection::Home => (4, "Home"),
            NavDirection::End => (5, "End"),
            NavDirection::PageUp => (6, "PageUp"),
            NavDirection::PageDown => (7, "PageDown"),
        };
        s.serialize_unit_variant("NavDirection", index, variant)
    }
}

impl Serialize for Wire<'_, EditControlEvent> {
    fn serialize<S: Serializer>(&self, s: S) -> Result<S::Ok, S::Error> {
        let name = "EditControlEvent";
        match self.0 {
            EditControlEvent::Enter => s.serialize_unit_variant(name, 0, "Enter"),
            EditControlEvent::Tab => s.serialize_unit_variant(name, 1, "Tab"),
            EditControlEvent::Backspace { count } => {
                let mut fields = s.serialize_struct_variant(name, 2, "Backspace", 1)?;
                fields.serialize_field("count", count)?;
                fields.end()
            }
            EditControlEvent::Delete { count } => {
                let mut fields = s.serialize_struct_variant(name, 3, "Delete", 1)?;
                fields.serialize_field("count", count)?;
                fields.end()
            }
            EditControlEvent::Insert => s.serialize_unit_variant(name, 4, "Insert"),
        }
    }
}

impl Serialize for Wire<'_, SystemKeyEvent> {
    fn serialize<S: Serializer>(&self, s: S) -> Result<S::Ok, S::Error> {
        let (index, variant) = match self.0 {
            SystemKeyEvent::CapsLock => (0, "CapsLock"),
            SystemKeyEvent::ScrollLock => (1, "ScrollLock"),
            SystemKeyEvent::NumLock => (2, "NumLock"),
            SystemKeyEvent::PrintScreen => (3, "PrintScreen"),
            SystemKeyEvent::Pause => (4, "Pause"),
            SystemKeyEvent::Menu => (5, "Menu"),
        };
        s.serialize_unit_variant("SystemKeyEvent", index, variant)
    }
}

impl Serialize for Wire<'_, PaneFocusedEvent> {
    fn serialize<S: Serializer>(&self, s: S) -> Result<S::Ok, S::Error> {
        let mut fields = s.serialize_struct("PaneFocusedEvent", 4)?;
        fields.serialize_field("tab_name", &self.0.tab_name)?;
        fields.serialize_field("pane_title", &self.0.pane_title)?;
        fields.serialize_field("command", &self.0.command)?;
        fields.serialize_field("is_plugin", &self.0.is_plugin)?;
        fields.end()
    }
}

/// The bytes that `rmp_serde` writes for a log: the header, then each
/// entry, one value after the other.
fn written_by_rmp_serde(log: &EventLog) -> Vec<u8> {
    let mut out = Vec::new();
    let header = Header { version: 1, consumed_count: log.consumed_count() as u64 };
    rmp_serde::encode::write(&mut out, &header).unwrap();
    for entry in entries_of(log) {
        rmp_serde::encode::write(&mut out, &Wire(&entry)).unwrap();
    }
    out
}

fn malformed() -> EventLogError {
    EventLogError::Deserialization("truncated or malformed record".to_string())
}

fn text(bytes: &[u8], name: &str) -> Vec<u8> {
    assert!(name.len() < 32);
    let mut all = bytes.to_vec();
    all.push(0xa0 + name.len() as u8);
    all.extend_from_slice(name.as_bytes());
    all
}

#[test]
fn an_empty_log_round_trips() {
    let log = EventLog::new();
    let bytes = log.serialize().unwrap();
    assert_eq!(bytes, vec![0x92, 0x01, 0x00]);
    let loaded = EventLog::deserialize(&bytes).unwrap();
    assert_eq!(loaded.total_count(), 0);
    assert_eq!(loaded.consumed_count(), 0);
}

#[test]
fn every_kind_of_event_round_trips() {
    let mut log = EventLog::new();
    for (i, event) in every_kind().into_iter().enumerate() {
        log.append(event, 1_700_000_000_000 + i as u64);
    }
    log.consume(5);
    let bytes = log.serialize().unwrap();
    let loaded = EventLog::deserialize(&bytes).unwrap();
    assert_eq!(entries_of(&loaded), entries_of(&log));
    assert_eq!(loaded.consumed_count(), 5);
    assert_eq!(loaded.serialize().unwrap(), bytes);
}

#[test]
fn the_bytes_of_a_small_log() {
    let mut log = EventLog::new();
    log.append(KeystrokeEvent::TextTyped("hé".to_string()), 0x0102);
    log.append(KeystrokeEvent::Escape, 3);
    log.append(
        KeystrokeEvent::Navigation(NavigationEvent {
            direction: NavDirection::Up,
            count: 2,
            with_shift: false,
            with_ctrl: true,
        }),
        200,
    );
    log.consume(1);
    let mut expected: Vec<u8> = vec![0x92, 0x01, 0x01];
    // [{"TextTyped": "hé"}, 0x0102]
    expected.extend_from_slice(&[0x92, 0x81, 0xa9]);
    expected.extend_from_slice(b"TextTyped");
    expected.extend_from_slice(&[0xa3, b'h', 0xc3, 0xa9, 0xcd, 0x01, 0x02]);
    // ["Escape", 3]
    expected.extend_from_slice(&[0x92, 0xa6]);
    expected.extend_from_slice(b"Escape");
    expected.push(0x03);
    // [{"Navigation": ["Up", 2, false, true]}, 200]
    expected.extend_from_slice(&[0x92, 0x81, 0xaa]);
    expected.extend_from_slice(b"Navigation");
    expected.extend_from_slice(&[0x94, 0xa2, b'U', b'p', 0x02, 0xc2, 0xc3, 0xcc, 200]);
    assert_eq!(log.serialize().unwrap(), expected);
}

#[test]
fn the_bytes_of_fields_in_variants() {
    let mut log = EventLog::new();
    log.append(KeystrokeEvent::EditControl(EditControlEvent::Backspace { count: 3 }), 0);
    log.append(KeystrokeEvent::EditControl(EditControlEvent::Enter), 0);
    log.append(
        KeystrokeEvent::Shortcut(ShortcutEvent {
            key: ShortcutKey::Char('é'),
            ctrl: true,
            alt: false,
            shift: false,
            super_key: true,
        }),
        0,
    );
    log.append(
        KeystrokeEvent::PaneFocused(PaneFocusedEvent {
            tab_name: None,
            pane_title: "sh".to_string(),
            command: Some("/bin/sh".to_string()),
            is_plugin: false,
        }),
        0,
    );
    let mut expected: Vec<u8> = vec![0x92, 0x01, 0x00];
    // [{"EditControl": {"Backspace": [3]}}, 0]
    expected.extend_from_slice(&[0x92, 0x81, 0xab]);
    expected.extend_from_slice(b"EditControl");
    expected.extend_from_slice(&[0x81, 0xa9]);
    expected.extend_from_slice(b"Backspace");
    expected.extend_from_slice(&[0x91, 0x03, 0x00]);
    // [{"EditControl": "Enter"}, 0]
    expected.extend_from_slice(&[0x92, 0x81, 0xab]);
    expected.extend_from_slice(b"EditControl");
    expected.push(0xa5);
    expected.extend_from_slice(b"Enter");
    expected.push(0x00);
    // [{"Shortcut": [{"Char": "é"}, true, false, false, true]}, 0]
    expected.extend_from_slice(&[0x92, 0x81, 0xa8]);
    expected.extend_from_slice(b"Shortcut");
    expected.extend_from_slice(&[0x95, 0x81, 0xa4]);
    expected.extend_from_slice(b"Char");
    expected.extend_from_slice(&[0xa2, 0xc3, 0xa9, 0xc3, 0xc2, 0xc2, 0xc3, 0x00]);
    // [{"PaneFocused": [nil, "sh", "/bin/sh", false]}, 0]
    expected.extend_from_slice(&[0x92, 0x81, 0xab]);
    expected.extend_from_slice(b"PaneFocused");
    expected.extend_from_slice(&[0x94, 0xc0, 0xa2, b's', b'h', 0xa7]);
    expected.extend_from_slice(b"/bin/sh");
    expected.extend_from_slice(&[0xc2, 0x00]);
    assert_eq!(log.serialize().unwrap(), expected);
}

#[test]
fn the_bytes_are_those_that_rmp_serde_writes() {
    let stamps = [
        0,
        1,
        127,
        128,
        255,
        256,
        65_535,
        65_536,
        4_294_967_295,
        4_294_967_296,
        1_700_000_000_000,
        u64::MAX,
    ];
    let mut log = EventLog::new();
    for (i, event) in every_kind().into_iter().enumerate() {
        log.append(event, stamps[i % stamps.len()]);
    }
    for length in [31, 32, 255, 256, 65_535, 65_536] {
        log.append(KeystrokeEvent::TextTyped("x".repeat(length)), 9);
    }
    for count in [0, 127, 128, 300, 70_000, usize::MAX] {
        log.append(KeystrokeEvent::EditControl(EditControlEvent::Delete { count }), 9);
    }
    assert_eq!(log.serialize().unwrap(), written_by_rmp_serde(&log));
    log.consume(200);
    let bytes = log.serialize().unwrap();
    assert_eq!(bytes, written_by_rmp_serde(&log));
    let loaded = EventLog::deserialize(&bytes).unwrap();
    assert_eq!(entries_of(&loaded), entries_of(&log));
    assert_eq!(loaded.consumed_count(), log.consumed_count());
    assert!(log.consumed_count() > 50);
}

fn one_entry(event: KeystrokeEvent, timestamp_ms: u64) -> Vec<u8> {
    let mut log = EventLog::new();
    log.append(event, timestamp_ms);
    let bytes = log.serialize().unwrap();
    assert_eq!(&bytes[..3], &[0x92, 0x01, 0x00]);
    bytes[3..].to_vec()
}

fn keyed<T>(name: &str, value: T) -> HashMap<String, T> {
    let mut map = HashMap::new();
    map.insert(name.to_string(), value);
    map
}

#[test]
fn rmp_serde_reads_what_was_written() {
    let mut log = EventLog::new();
    log.append(KeystrokeEvent::Escape, 1_700_000_000_000);
    log.consume(1);
    let bytes = log.serialize().unwrap();
    let header: (u32, u64) = rmp_serde::from_slice(&bytes[..3]).unwrap();
    assert_eq!(header, (1, 1));
    let entry: (String, u64) = rmp_serde::from_slice(&bytes[3..]).unwrap();
    assert_eq!(entry, ("Escape".to_string(), 1_700_000_000_000));
}

#[test]
fn rmp_serde_reads_every_shape_of_entry() {
    let bytes = one_entry(KeystrokeEvent::TextTyped("héllo".to_string()), 7);
    let entry: (HashMap<String, String>, u64) = rmp_serde::from_slice(&bytes).unwrap();
    assert_eq!(entry, (keyed("TextTyped", "héllo".to_string()), 7));

    let bytes = one_entry(KeystrokeEvent::FunctionKey(200), 300);
    let entry: (HashMap<String, u8>, u64) = rmp_serde::from_slice(&bytes).unwrap();
    assert_eq!(entry, (keyed("FunctionKey", 200), 300));

    let bytes = one_entry(KeystrokeEvent::SystemKey(SystemKeyEvent::PrintScreen), 70_000);
    let entry: (HashMap<String, String>, u64) = rmp_serde::from_slice(&bytes).unwrap();
    assert_eq!(entry, (keyed("SystemKey", "PrintScreen".to_string()), 70_000));

    let bytes = one_entry(
        KeystrokeEvent::Navigation(NavigationEvent {
            direction: NavDirection::PageDown,
            count: 1000,
            with_shift: true,
            with_ctrl: false,
        }),
        u64::MAX,
    );
    let entry: (HashMap<String, (String, usize, bool, bool)>, u64) =
        rmp_serde::from_slice(&bytes).unwrap();
    assert_eq!(
        entry,
        (keyed("Navigation", ("PageDown".to_string(), 1000, true, false)), u64::MAX)
    );

    let bytes = one_entry(KeystrokeEvent::EditControl(EditControlEvent::Delete { count: 9 }), 1);
    let entry: (HashMap<String, HashMap<String, (usize,)>>, u64) =
        rmp_serde::from_slice(&bytes).unwrap();
    assert_eq!(entry, (keyed("EditControl", keyed("Delete", (9,))), 1));

    let bytes = one_entry(KeystrokeEvent::EditControl(EditControlEvent::Insert), 1);
    let entry: (HashMap<String, String>, u64) = rmp_serde::from_slice(&bytes).unwrap();
    assert_eq!(entry, (keyed("EditControl", "Insert".to_string()), 1));

    let bytes = one_entry(
        KeystrokeEvent::Shortcut(ShortcutEvent {
            key: ShortcutKey::Char('≡'),
            ctrl: true,
            alt: false,
            shift: true,
            super_key: false,
        }),
        2,
    );
    let entry: (HashMap<String, (HashMap<String, char>, bool, bool, bool, bool)>, u64) =
        rmp_serde::from_slice(&bytes).unwrap();
    assert_eq!(entry, (keyed("Shortcut", (keyed("Char", '≡'), true, false, true, false)), 2));

    let bytes = one_entry(
        KeystrokeEvent::Shortcut(ShortcutEvent {
            key: ShortcutKey::F(12),
            ctrl: false,
            alt: true,
            shift: false,
            super_key: true,
        }),
        2,
    );
    let entry: (HashMap<String, (HashMap<String, u8>, bool, bool, bool, bool)>, u64) =
        rmp_serde::from_slice(&bytes).unwrap();
    assert_eq!(entry, (keyed("Shortcut", (keyed("F", 12), false, true, false, true)), 2));

    let bytes = one_entry(
        KeystrokeEvent::Shortcut(ShortcutEvent {
            key: ShortcutKey::PageUp,
            ctrl: false,
            alt: false,
            shift: false,
            super_key: false,
        }),
        2,
    );
    let entry: (HashMap<String, (String, bool, bool, bool, bool)>, u64) =
        rmp_serde::from_slice(&bytes).unwrap();
    assert_eq!(
        entry,
        (keyed("Shortcut", ("PageUp".to_string(), false, false, false, false)), 2)
    );

    let bytes = one_entry(
        KeystrokeEvent::PaneFocused(PaneFocusedEvent {
            tab_name: Some("tab 1".to_string()),
            pane_title: "nvim".to_string(),
            command: None,
            is_plugin: true,
        }),
        3,
    );
    let entry: (HashMap<String, (Option<String>, String, Option<String>, bool)>, u64) =
        rmp_serde::from_slice(&bytes).unwrap();
    assert_eq!(
        entry,
        (
            keyed("PaneFocused", (Some("tab 1".to_string()), "nvim".to_string(), None, true)),
            3
        )
    );
}

#[test]
fn another_version_is_an_invalid_format() {
    assert_eq!(
        EventLog::deserialize(&[0x92, 0x02, 0x00]).unwrap_err(),
        EventLogError::InvalidFormat("unsupported version: 2".to_string())
    );
    assert_eq!(
        EventLog::deserialize(&[0x92, 0x00, 0x00]).unwrap_err(),
        EventLogError::InvalidFormat("unsupported version: 0".to_string())
    );
    assert_eq!(
        EventLog::deserialize(&[0x92, 0xcd, 0x01, 0x00, 0x07]).unwrap_err(),
        EventLogError::InvalidFormat("unsupported version: 256".to_string())
    );
    assert_eq!(
        EventLog::deserialize(&[0x92, 0xce, 0xff, 0xff, 0xff, 0xff, 0x00]).unwrap_err(),
        EventLogError::InvalidFormat("unsupported version: 4294967295".to_string())
    );
}

#[test]
fn another_version_wins_over_malformed_entries() {
    assert_eq!(
        EventLog::deserialize(&[0x92, 0x03, 0x00, 0xff, 0xc1]).unwrap_err(),
        EventLogError::InvalidFormat("unsupported version: 3".to_string())
    );
    let mut log = EventLog::new();
    log.append(KeystrokeEvent::Escape, 2);
    let mut bytes = log.serialize().unwrap();
    bytes[1] = 2;
    bytes.truncate(bytes.len() - 1);
    assert_eq!(
        EventLog::deserialize(&bytes).unwrap_err(),
        EventLogError::InvalidFormat("unsupported version: 2".to_string())
    );
}

#[test]
fn a_short_header_is_malformed() {
    assert_eq!(EventLog::deserialize(&[]).unwrap_err(), malformed());
    assert_eq!(EventLog::deserialize(&[0x92]).unwrap_err(), malformed());
    assert_eq!(EventLog::deserialize(&[0x92, 0x01]).unwrap_err(), malformed());
    assert_eq!(EventLog::deserialize(&[0x92, 0x02]).unwrap_err(), malformed());
    assert_eq!(
        EventLog::deserialize(&[0x92, 0x01, 0xcd, 0x01]).unwrap_err(),
        malformed()
    );
}

#[test]
fn a_header_of_another_shape_is_malformed() {
    assert_eq!(EventLog::deserialize(&[0x91, 0x01, 0x00]).unwrap_err(), malformed());
    assert_eq!(EventLog::deserialize(&[0x93, 0x01, 0x00, 0x00]).unwrap_err(), malformed());
    assert_eq!(EventLog::deserialize(&[0x82, 0x01, 0x00]).unwrap_err(), malformed());
    assert_eq!(EventLog::deserialize(&[0x01, 0x00]).unwrap_err(), malformed());
    // a version that no 32-bit number holds
    assert_eq!(
        EventLog::deserialize(&[0x92, 0xcf, 0, 0, 0, 1, 0, 0, 0, 0, 0x00]).unwrap_err(),
        malformed()
    );
    // a string where the version should be
    assert_eq!(EventLog::deserialize(&[0x92, 0xa1, b'1', 0x00]).unwrap_err(), malformed());
}

#[test]
fn numbers_in_a_longer_form_than_they_need_are_malformed() {
    assert_eq!(EventLog::deserialize(&[0x92, 0xcc, 0x01, 0x00]).unwrap_err(), malformed());
    assert_eq!(EventLog::deserialize(&[0x92, 0x01, 0xcc, 0x00]).unwrap_err(), malformed());
    assert_eq!(
        EventLog::deserialize(&[0x92, 0x01, 0xcd, 0x00, 0xff]).unwrap_err(),
        malformed()
    );
    assert_eq!(
        EventLog::deserialize(&[0x92, 0x01, 0xce, 0x00, 0x00, 0xff, 0xff]).unwrap_err(),
        malformed()
    );
    assert_eq!(
        EventLog::deserialize(&[0x92, 0x01, 0xcf, 0, 0, 0, 0, 0xff, 0xff, 0xff, 0xff])
            .unwrap_err(),
        malformed()
    );
    // a name whose length is written in two bytes
    let mut bytes = vec![0x92, 0x01, 0x00, 0x92, 0xd9, 0x06];
    bytes.extend_from_slice(b"Escape");
    bytes.push(0x00);
    assert_eq!(EventLog::deserialize(&bytes).unwrap_err(), malformed());
    assert_eq!(read_u64(&[0xcc, 0x80], 0), Some((128, 2)));
    assert_eq!(read_u64(&[0xcc, 0x7f], 0), None);
    assert_eq!(read_text(&[0xd9, 0x01, b'a'], 0), None);
}

#[test]
fn every_truncation_of_a_log_is_rejected_or_a_shorter_log() {
    let mut log = EventLog::new();
    log.append(KeystrokeEvent::TextTyped("héllo".to_string()), 1);
    log.append(KeystrokeEvent::Escape, 2);
    let bytes = log.serialize().unwrap();
    // header 3 bytes; first entry 1 + (1 + 10 + 7) + 1 = 20; second 1 + 7 + 1 = 9
    assert_eq!(bytes.len(), 3 + 20 + 9);
    for cut in 0..bytes.len() {
        let result = EventLog::deserialize(&bytes[..cut]);
        if cut == 3 {
            assert_eq!(result.unwrap().total_count(), 0);
        } else if cut == 3 + 20 {
            assert_eq!(result.unwrap().total_count(), 1);
        } else {
            assert_eq!(result.unwrap_err(), malformed());
        }
    }
}

#[test]
fn trailing_bytes_are_malformed() {
    let mut log = EventLog::new();
    log.append(KeystrokeEvent::Escape, 2);
    let mut bytes = log.serialize().unwrap();
    bytes.push(4);
    assert_eq!(EventLog::deserialize(&bytes).unwrap_err(), malformed());
}

#[test]
fn unknown_names_are_malformed() {
    // ["Escape", 2] loads
    let mut good = text(&[0x92, 0x01, 0x00, 0x92], "Escape");
    good.push(0x02);
    assert_eq!(EventLog::deserialize(&good).unwrap().total_count(), 1);
    // ["Escapes", 2]
    let mut bytes = text(&[0x92, 0x01, 0x00, 0x92], "Escapes");
    bytes.push(0x02);
    assert_eq!(EventLog::deserialize(&bytes).unwrap_err(), malformed());
    // [{"Escape": 0}, 2]: a variant without fields written with one
    let mut bytes = text(&[0x92, 0x01, 0x00, 0x92, 0x81], "Escape");
    bytes.extend_from_slice(&[0x00, 0x02]);
    assert_eq!(EventLog::deserialize(&bytes).unwrap_err(), malformed());
    // ["FunctionKey", 2]: a variant with a field written without it
    let mut bytes = text(&[0x92, 0x01, 0x00, 0x92], "FunctionKey");
    bytes.push(0x02);
    assert_eq!(EventLog::deserialize(&bytes).unwrap_err(), malformed());
    // [{"SystemKey": "Menus"}, 2]
    let mut bytes = text(&text(&[0x92, 0x01, 0x00, 0x92, 0x81], "SystemKey"), "Menus");
    bytes.push(0x02);
    assert_eq!(EventLog::deserialize(&bytes).unwrap_err(), malformed());
    let mut bytes = text(&text(&[0x92, 0x01, 0x00, 0x92, 0x81], "SystemKey"), "Menu");
    bytes.push(0x02);
    let loaded = EventLog::deserialize(&bytes).unwrap();
    assert_eq!(
        loaded.entry(0).unwrap().event,
        KeystrokeEvent::SystemKey(SystemKeyEvent::Menu)
    );
}

#[test]
fn a_function_key_is_a_byte() {
    let mut bytes = text(&[0x92, 0x01, 0x00, 0x92, 0x81], "FunctionKey");
    bytes.extend_from_slice(&[0xcc, 0xff, 0x02]);
    let loaded = EventLog::deserialize(&bytes).unwrap();
    assert_eq!(loaded.entry(0).unwrap().event, KeystrokeEvent::FunctionKey(255));
    let mut bytes = text(&[0x92, 0x01, 0x00, 0x92, 0x81], "FunctionKey");
    bytes.extend_from_slice(&[0xcd, 0x01, 0x00, 0x02]);
    assert_eq!(EventLog::deserialize(&bytes).unwrap_err(), malformed());
}

#[test]
fn a_flag_must_be_true_or_false() {
    let mut log = EventLog::new();
    log.append(
        KeystrokeEvent::Navigation(NavigationEvent {
            direction: NavDirection::Up,
            count: 2,
            with_shift: false,
            with_ctrl: true,
        }),
        4,
    );
    let good = log.serialize().unwrap();
    let flag = good.len() - 2;
    assert_eq!(good[flag], 0xc3);
    for wrong in [0x00, 0x01, 0xc0, 0xc1, 0xc4] {
        let mut bytes = good.clone();
        bytes[flag] = wrong;
        assert_eq!(EventLog::deserialize(&bytes).unwrap_err(), malformed());
    }
    let mut bytes = good.clone();
    bytes[flag] = 0xc2;
    let loaded = EventLog::deserialize(&bytes).unwrap();
    assert_eq!(
        loaded.entry(0).unwrap().event,
        KeystrokeEvent::Navigation(NavigationEvent {
            direction: NavDirection::Up,
            count: 2,
            with_shift: false,
            with_ctrl: false,
        })
    );
}

#[test]
fn text_that_is_not_utf8_is_malformed() {
    let mut log = EventLog::new();
    log.append(KeystrokeEvent::TextTyped("ab".to_string()), 1);
    let mut bytes = log.serialize().unwrap();
    let last = bytes.len() - 2;
    assert_eq!(bytes[last], b'b');
    bytes[last] = 0xff;
    assert_eq!(EventLog::deserialize(&bytes).unwrap_err(), malformed());
}

#[test]
fn a_shortcut_scalar_must_be_one_scalar() {
    let mut start = text(&[0x92, 0x01, 0x00, 0x92, 0x81], "Shortcut");
    start.extend_from_slice(&[0x95, 0x81]);
    let start = text(&start, "Char");
    let rest = [0xc3, 0xc2, 0xc2, 0xc2, 0x01];
    let with = |scalar: &str| {
        let mut bytes = text(&start, scalar);
        bytes.extend_from_slice(&rest);
        bytes
    };
    let loaded = EventLog::deserialize(&with("a")).unwrap();
    assert_eq!(
        loaded.entry(0).unwrap().event,
        KeystrokeEvent::Shortcut(ShortcutEvent {
            key: ShortcutKey::Char('a'),
            ctrl: true,
            alt: false,
            shift: false,
            super_key: false,
        })
    );
    assert_eq!(EventLog::deserialize(&with("😀")).unwrap().total_count(), 1);
    assert_eq!(EventLog::deserialize(&with("")).unwrap_err(), malformed());
    assert_eq!(EventLog::deserialize(&with("ab")).unwrap_err(), malformed());
}

#[test]
fn the_watermark_is_clamped_on_load() {
    let mut loaded = EventLog::deserialize(&[0x92, 0x01, 0x05]).unwrap();
    assert_eq!(loaded.total_count(), 0);
    assert_eq!(loaded.consumed_count(), 0);
    assert_eq!(loaded.unconsumed_count(), 0);
    loaded.append(KeystrokeEvent::Escape, 1);
    assert_eq!(loaded.unconsumed_count(), 1);

    let mut log = EventLog::new();
    log.append(KeystrokeEvent::Escape, 1);
    log.append(KeystrokeEvent::Escape, 2);
    let mut bytes = log.serialize().unwrap();
    bytes[2] = 9;
    let loaded = EventLog::deserialize(&bytes).unwrap();
    assert_eq!(loaded.total_count(), 2);
    assert_eq!(loaded.consumed_count(), 2);
    let mut huge = vec![0x92, 0x01, 0xcf, 0xff, 0xff, 0xff, 0xff, 0xff, 0xff, 0xff, 0xff];
    huge.extend_from_slice(&bytes[3..]);
    let loaded = EventLog::deserialize(&huge).unwrap();
    assert_eq!(loaded.total_count(), 2);
    assert_eq!(loaded.consumed_count(), 2);
}

#[test]
fn values_are_read_back_where_they_were_written() {
    let mut out = Vec::new();
    put_u8(&mut out, 0xab);
    put_bool(&mut out, true);
    put_u32(&mut out, 0x0102_0304);
    put_u64(&mut out, 0x0102_0304_0506_0708);
    put_count(&mut out, 77);
    put_text(&mut out, "hé");
    put_optional_text(&mut out, &None);
    put_optional_text(&mut out, &Some("x".to_string()));
    put_u64(&mut out, 0x0102);
    put_bool(&mut out, false);
    assert_eq!(
        out,
        vec![
            0xcc, 0xab, 0xc3, 0xce, 1, 2, 3, 4, 0xcf, 1, 2, 3, 4, 5, 6, 7, 8, 77, 0xa3, b'h',
            0xc3, 0xa9, 0xc0, 0xa1, b'x', 0xcd, 1, 2, 0xc2,
        ]
    );
    assert_eq!(read_u8(&out, 0), Some((0xab, 2)));
    assert_eq!(read_bool(&out, 2), Some((true, 3)));
    assert_eq!(read_bool(&out, 0), None);
    assert_eq!(read_u32(&out, 3), Some((0x0102_0304, 8)));
    assert_eq!(read_u64(&out, 8), Some((0x0102_0304_0506_0708, 17)));
    assert_eq!(read_u32(&out, 8), None);
    assert_eq!(read_count(&out, 17), Some((77, 18)));
    assert_eq!(read_text(&out, 18), Some(("hé".to_string(), 22)));
    assert_eq!(read_optional_text(&out, 22), Some((None, 23)));
    assert_eq!(read_optional_text(&out, 23), Some((Some("x".to_string()), 25)));
    assert_eq!(read_u64(&out, 25), Some((0x0102, 28)));
    assert_eq!(read_u8(&out, 25), None);
    assert_eq!(read_bool(&out, 28), Some((false, 29)));
    assert_eq!(read_u8(&out, 29), None);
    assert_eq!(read_u8(&out, 1000), None);
    assert_eq!(read_u32(&out, 5), Some((2, 6)));
    assert_eq!(read_u64(&out, 9), Some((1, 10)));
    assert_eq!(read_text(&out, 0), None);
    assert_eq!(read_u64(&out, usize::MAX), None);
}

#[test]
fn numbers_take_the_shortest_form() {
    let cases: [(u64, Vec<u8>); 9] = [
        (0, vec![0x00]),
        (127, vec![0x7f]),
        (128, vec![0xcc, 0x80]),
        (255, vec![0xcc, 0xff]),
        (256, vec![0xcd, 0x01, 0x00]),
        (65_535, vec![0xcd, 0xff, 0xff]),
        (65_536, vec![0xce, 0x00, 0x01, 0x00, 0x00]),
        (4_294_967_296, vec![0xcf, 0, 0, 0, 1, 0, 0, 0, 0]),
        (u64::MAX, vec![0xcf, 0xff, 0xff, 0xff, 0xff, 0xff, 0xff, 0xff, 0xff]),
    ];
    for (number, bytes) in cases {
        let mut out = Vec::new();
        put_u64(&mut out, number);
        assert_eq!(out, bytes);
        assert_eq!(out, rmp_serde::to_vec(&number).unwrap());
        assert_eq!(read_u64(&out, 0), Some((number, bytes.len())));
        for cut in 0..bytes.len() {
            assert_eq!(read_u64(&bytes[..cut], 0), None);
        }
    }
}

#[test]
fn text_lengths_take_the_shortest_form() {
    for (length, head) in [
        (0usize, vec![0xa0u8]),
        (31, vec![0xbf]),
        (32, vec![0xd9, 32]),
        (255, vec![0xd9, 255]),
        (256, vec![0xda, 1, 0]),
        (65_535, vec![0xda, 0xff, 0xff]),
        (65_536, vec![0xdb, 0, 1, 0, 0]),
    ] {
        let text = "é".repeat(length / 2) + &"x".repeat(length % 2);
        assert_eq!(text.len(), length);
        let mut out = Vec::new();
        put_text(&mut out, &text);
        assert_eq!(&out[..head.len()], &head[..]);
        assert_eq!(&out[head.len()..], text.as_bytes());
        assert_eq!(out, rmp_serde::to_vec(&text).unwrap());
        assert_eq!(read_text(&out, 0), Some((text.clone(), out.len())));
        assert_eq!(read_text(&out[..out.len() - 1], 0), None);
    }
}
