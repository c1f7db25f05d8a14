use crumbeez::decimal::decimal;
use crumbeez::keystroke::{
    arrow_seq, bare_key_to_bytes, bare_key_to_shortcut_key, ctrl_char_bytes, fkey_bytes,
    modifier_param, nav_direction,
};
use crumbeez::{
    classify, key_to_bytes, BareKey, EditControlEvent, KeyWithModifier, KeystrokeEvent,
    NavDirection, NavigationEvent, ShortcutEvent, ShortcutKey, SystemKeyEvent,
};

fn plain(bare_key: BareKey) -> KeyWithModifier {
    KeyWithModifier { bare_key, ctrl: false, alt: false, shift: false, super_key: false }
}

fn ctrl(bare_key: BareKey) -> KeyWithModifier {
    KeyWithModifier { ctrl: true, ..plain(bare_key) }
}

fn shift(bare_key: BareKey) -> KeyWithModifier {
    KeyWithModifier { shift: true, ..plain(bare_key) }
}

fn alt(bare_key: BareKey) -> KeyWithModifier {
    KeyWithModifier { alt: true, ..plain(bare_key) }
}

#[test]
fn a_chord_is_a_shortcut() {
    assert_eq!(
        classify(&ctrl(BareKey::Char('s'))),
        KeystrokeEvent::Shortcut(ShortcutEvent {
            key: ShortcutKey::Char('s'),
            ctrl: true,
            alt: false,
            shift: false,
            super_key: false,
        })
    );
    let key = KeyWithModifier {
        bare_key: BareKey::Left,
        ctrl: false,
        alt: true,
        shift: true,
        super_key: true,
    };
    assert_eq!(
        classify(&key),
        KeystrokeEvent::Shortcut(ShortcutEvent {
            key: ShortcutKey::Left,
            ctrl: false,
            alt: true,
            shift: true,
            super_key: true,
        })
    );
    assert_eq!(
        classify(&ctrl(BareKey::CapsLock)),
        KeystrokeEvent::Shortcut(ShortcutEvent {
            key: ShortcutKey::Char('⇪'),
            ctrl: true,
            alt: false,
            shift: false,
            super_key: false,
        })
    );
}

#[test]
fn navigation_keys_keep_shift() {
    assert_eq!(
        classify(&shift(BareKey::PageUp)),
        KeystrokeEvent::Navigation(NavigationEvent {
            direction: NavDirection::PageUp,
            count: 1,
            with_shift: true,
            with_ctrl: false,
        })
    );
    assert_eq!(
        classify(&plain(BareKey::Home)),
        KeystrokeEvent::Navigation(NavigationEvent {
            direction: NavDirection::Home,
            count: 1,
            with_shift: false,
            with_ctrl: false,
        })
    );
}

#[test]
fn the_other_kinds() {
    assert_eq!(
        classify(&plain(BareKey::Enter)),
        KeystrokeEvent::EditControl(EditControlEvent::Enter)
    );
    assert_eq!(
        classify(&plain(BareKey::Tab)),
        KeystrokeEvent::EditControl(EditControlEvent::Tab)
    );
    assert_eq!(
        classify(&shift(BareKey::Backspace)),
        KeystrokeEvent::EditControl(EditControlEvent::Backspace { count: 1 })
    );
    assert_eq!(
        classify(&plain(BareKey::Delete)),
        KeystrokeEvent::EditControl(EditControlEvent::Delete { count: 1 })
    );
    assert_eq!(
        classify(&plain(BareKey::Insert)),
        KeystrokeEvent::EditControl(EditControlEvent::Insert)
    );
    assert_eq!(classify(&plain(BareKey::Esc)), KeystrokeEvent::Escape);
    assert_eq!(classify(&plain(BareKey::F(7))), KeystrokeEvent::FunctionKey(7));
    assert_eq!(
        classify(&shift(BareKey::Char('É'))),
        KeystrokeEvent::TextTyped("É".to_string())
    );
    assert_eq!(
        classify(&plain(BareKey::Pause)),
        KeystrokeEvent::SystemKey(SystemKeyEvent::Pause)
    );
}

#[test]
fn helper_tables() {
    assert_eq!(nav_direction(&BareKey::End), Some(NavDirection::End));
    assert_eq!(nav_direction(&BareKey::Enter), None);
    assert_eq!(bare_key_to_shortcut_key(&BareKey::F(3)), ShortcutKey::F(3));
    assert_eq!(bare_key_to_shortcut_key(&BareKey::Menu), ShortcutKey::Char('≡'));
    assert_eq!(modifier_param(false, true), b'2');
    assert_eq!(modifier_param(true, false), b'5');
    assert_eq!(modifier_param(true, true), b'6');
    assert_eq!(modifier_param(false, false), b'1');
}

#[test]
fn arrows() {
    assert_eq!(arrow_seq(b'A', false, false), b"\x1b[A".to_vec());
    assert_eq!(arrow_seq(b'D', true, false), b"\x1b[1;5D".to_vec());
    assert_eq!(key_to_bytes(&plain(BareKey::Up)), b"\x1b[A".to_vec());
    assert_eq!(key_to_bytes(&plain(BareKey::Down)), b"\x1b[B".to_vec());
    assert_eq!(key_to_bytes(&plain(BareKey::Right)), b"\x1b[C".to_vec());
    assert_eq!(key_to_bytes(&shift(BareKey::Left)), b"\x1b[1;2D".to_vec());
    assert_eq!(key_to_bytes(&plain(BareKey::Home)), b"\x1b[H".to_vec());
    assert_eq!(key_to_bytes(&ctrl(BareKey::End)), b"\x1b[1;5F".to_vec());
    let both = KeyWithModifier { shift: true, ..ctrl(BareKey::Home) };
    assert_eq!(key_to_bytes(&both), b"\x1b[1;6H".to_vec());
}

#[test]
fn paging_and_editing_keys() {
    assert_eq!(key_to_bytes(&plain(BareKey::PageUp)), b"\x1b[5~".to_vec());
    assert_eq!(key_to_bytes(&shift(BareKey::PageDown)), b"\x1b[6;2~".to_vec());
    assert_eq!(key_to_bytes(&plain(BareKey::Delete)), b"\x1b[3~".to_vec());
    assert_eq!(key_to_bytes(&shift(BareKey::Delete)), b"\x1b[3;2~".to_vec());
    let both = KeyWithModifier { shift: true, ..ctrl(BareKey::Delete) };
    assert_eq!(key_to_bytes(&both), b"\x1b[3;5~".to_vec());
    assert_eq!(key_to_bytes(&plain(BareKey::Insert)), b"\x1b[2~".to_vec());
    assert_eq!(key_to_bytes(&shift(BareKey::Insert)), b"\x1b[2;2~".to_vec());
    assert_eq!(key_to_bytes(&ctrl(BareKey::Insert)), b"\x1b[2~".to_vec());
    assert_eq!(key_to_bytes(&plain(BareKey::Enter)), vec![0x0d]);
    assert_eq!(key_to_bytes(&ctrl(BareKey::Enter)), vec![0x0a]);
    assert_eq!(key_to_bytes(&plain(BareKey::Tab)), vec![0x09]);
    assert_eq!(key_to_bytes(&shift(BareKey::Tab)), b"\x1b[Z".to_vec());
    assert_eq!(key_to_bytes(&ctrl(BareKey::Tab)), vec![0x09]);
    assert_eq!(key_to_bytes(&plain(BareKey::Backspace)), vec![0x7f]);
    assert_eq!(key_to_bytes(&ctrl(BareKey::Backspace)), vec![0x08]);
    assert_eq!(key_to_bytes(&plain(BareKey::Esc)), vec![0x1b]);
}

#[test]
fn characters() {
    assert_eq!(key_to_bytes(&plain(BareKey::Char('a'))), b"a".to_vec());
    assert_eq!(key_to_bytes(&plain(BareKey::Char('é'))), "é".as_bytes().to_vec());
    assert_eq!(key_to_bytes(&plain(BareKey::Char('😀'))), "😀".as_bytes().to_vec());
    assert_eq!(key_to_bytes(&ctrl(BareKey::Char('a'))), vec![1]);
    assert_eq!(key_to_bytes(&ctrl(BareKey::Char('Z'))), vec![26]);
    assert_eq!(ctrl_char_bytes('c'), vec![3]);
    assert_eq!(ctrl_char_bytes('C'), vec![3]);
    assert_eq!(ctrl_char_bytes(' '), vec![0]);
    assert_eq!(ctrl_char_bytes('['), vec![0x1b]);
    assert_eq!(ctrl_char_bytes('\\'), vec![0x1c]);
    assert_eq!(ctrl_char_bytes(']'), vec![0x1d]);
    assert_eq!(ctrl_char_bytes('^'), vec![0x1e]);
    assert_eq!(ctrl_char_bytes('_'), vec![0x1f]);
    assert_eq!(ctrl_char_bytes('1'), b"1".to_vec());
    assert_eq!(ctrl_char_bytes('é'), "é".as_bytes().to_vec());
}

#[test]
fn alt_puts_an_escape_in_front() {
    assert_eq!(key_to_bytes(&alt(BareKey::Char('x'))), b"\x1bx".to_vec());
    assert_eq!(key_to_bytes(&alt(BareKey::Up)), b"\x1b\x1b[A".to_vec());
    assert_eq!(key_to_bytes(&alt(BareKey::CapsLock)), Vec::<u8>::new());
    assert_eq!(key_to_bytes(&plain(BareKey::Menu)), Vec::<u8>::new());
    assert_eq!(key_to_bytes(&alt(BareKey::F(13))), Vec::<u8>::new());
}

#[test]
fn function_keys() {
    let plain_keys: [&[u8]; 12] = [
        b"\x1bOP", b"\x1bOQ", b"\x1bOR", b"\x1bOS", b"\x1b[15~", b"\x1b[17~", b"\x1b[18~",
        b"\x1b[19~", b"\x1b[20~", b"\x1b[21~", b"\x1b[23~", b"\x1b[24~",
    ];
    let codes = ["11", "12", "13", "14", "15", "17", "18", "19", "20", "21", "23", "24"];
    for n in 1..=12u8 {
        let i = (n - 1) as usize;
        assert_eq!(fkey_bytes(n, false, false), plain_keys[i].to_vec());
        assert_eq!(
            fkey_bytes(n, true, false),
            format!("\x1b[{};5~", codes[i]).into_bytes()
        );
        assert_eq!(
            fkey_bytes(n, false, true),
            format!("\x1b[{};2~", codes[i]).into_bytes()
        );
        assert_eq!(
            fkey_bytes(n, true, true),
            format!("\x1b[{};6~", codes[i]).into_bytes()
        );
    }
    assert_eq!(fkey_bytes(0, false, false), Vec::<u8>::new());
    assert_eq!(fkey_bytes(13, true, false), Vec::<u8>::new());
    assert_eq!(bare_key_to_bytes(&BareKey::F(5), false, false), b"\x1b[15~".to_vec());
}

#[test]
fn decimal_notation() {
    assert_eq!(decimal(0), "0");
    assert_eq!(decimal(7), "7");
    assert_eq!(decimal(10), "10");
    assert_eq!(decimal(1234567890), "1234567890");
    assert_eq!(decimal(u64::MAX), "18446744073709551615");
}
