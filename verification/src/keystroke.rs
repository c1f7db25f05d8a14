//! Keystroke classification and re-encoding.
//!
//! [`classify`] turns a key with its modifiers into a semantic
//! [`KeystrokeEvent`]. [`key_to_bytes`] turns it back into the byte sequence
//! that a terminal application expects on its input.
//!
//! Classification, in order of precedence: a chord with Ctrl, Alt or Super is
//! a shortcut; arrows, Home, End, PageUp and PageDown are navigation; Enter,
//! Tab, Backspace, Delete and Insert are editing controls; then Esc, the
//! function keys, printable characters and the system keys.

use crate::events::{
    EditControlEvent, EventView, KeystrokeEvent, NavDirection, NavigationEvent, ShortcutEvent,
    ShortcutKey, SystemKeyEvent,
};
use crate::text::{lemma_scalar_width, scalar_text};
use vstd::prelude::*;
use vstd::utf8::encode_scalar;

verus! {

/// A key without its modifiers.
#[derive(Debug, Clone, Copy, PartialEq, Eq, Structural)]
pub enum BareKey {
    PageDown,
    PageUp,
    Left,
    Down,
    Up,
    Right,
    Home,
    End,
    Backspace,
    Delete,
    Insert,
    F(u8),
    Char(char),
    Tab,
    Esc,
    Enter,
    CapsLock,
    ScrollLock,
    NumLock,
    PrintScreen,
    Pause,
    Menu,
}

/// A key and the modifiers held with it.
#[derive(Debug, Clone, Copy, PartialEq, Eq, Structural)]
pub struct KeyWithModifier {
    pub bare_key: BareKey,
    pub ctrl: bool,
    pub alt: bool,
    pub shift: bool,
    pub super_key: bool,
}

/// The direction of a navigation key.
pub open spec fn spec_nav_direction(bare: BareKey) -> Option<NavDirection> {
    match bare {
        BareKey::Left => Some(NavDirection::Left),
        BareKey::Right => Some(NavDirection::Right),
        BareKey::Up => Some(NavDirection::Up),
        BareKey::Down => Some(NavDirection::Down),
        BareKey::Home => Some(NavDirection::Home),
        BareKey::End => Some(NavDirection::End),
        BareKey::PageUp => Some(NavDirection::PageUp),
        BareKey::PageDown => Some(NavDirection::PageDown),
        _ => None,
    }
}

/// The direction of a navigation key; `None` for any other key.
pub fn nav_direction(bare: &BareKey) -> (r: Option<NavDirection>)
    ensures
        r == spec_nav_direction(*bare),
{
    match bare {
        BareKey::Left => Some(NavDirection::Left),
        BareKey::Right => Some(NavDirection::Right),
        BareKey::Up => Some(NavDirection::Up),
        BareKey::Down => Some(NavDirection::Down),
        BareKey::Home => Some(NavDirection::Home),
        BareKey::End => Some(NavDirection::End),
        BareKey::PageUp => Some(NavDirection::PageUp),
        BareKey::PageDown => Some(NavDirection::PageDown),
        _ => None,
    }
}

/// The base key of a shortcut for a bare key. The keys that no shortcut key
/// stands for are shown by a symbol.
pub open spec fn spec_shortcut_key(bare: BareKey) -> ShortcutKey {
    match bare {
        BareKey::Char(c) => ShortcutKey::Char(c),
        BareKey::Enter => ShortcutKey::Enter,
        BareKey::Tab => ShortcutKey::Tab,
        BareKey::Backspace => ShortcutKey::Backspace,
        BareKey::Delete => ShortcutKey::Delete,
        BareKey::Esc => ShortcutKey::Esc,
        BareKey::Insert => ShortcutKey::Insert,
        BareKey::Left => ShortcutKey::Left,
        BareKey::Right => ShortcutKey::Right,
        BareKey::Up => ShortcutKey::Up,
        BareKey::Down => ShortcutKey::Down,
        BareKey::Home => ShortcutKey::Home,
        BareKey::End => ShortcutKey::End,
        BareKey::PageUp => ShortcutKey::PageUp,
        BareKey::PageDown => ShortcutKey::PageDown,
        BareKey::F(n) => ShortcutKey::F(n),
        BareKey::CapsLock => ShortcutKey::Char('⇪'),
        BareKey::ScrollLock => ShortcutKey::Char('⤓'),
        BareKey::NumLock => ShortcutKey::Char('⇭'),
        BareKey::PrintScreen => ShortcutKey::Char('⎙'),
        BareKey::Pause => ShortcutKey::Char('⏸'),
        BareKey::Menu => ShortcutKey::Char('≡'),
    }
}

/// The base key of a shortcut for a bare key.
pub fn bare_key_to_shortcut_key(bare: &BareKey) -> (r: ShortcutKey)
    ensures
        r == spec_shortcut_key(*bare),
{
    match bare {
        BareKey::Char(c) => ShortcutKey::Char(*c),
        BareKey::Enter => ShortcutKey::Enter,
        BareKey::Tab => ShortcutKey::Tab,
        BareKey::Backspace => ShortcutKey::Backspace,
        BareKey::Delete => ShortcutKey::Delete,
        BareKey::Esc => ShortcutKey::Esc,
        BareKey::Insert => ShortcutKey::Insert,
        BareKey::Left => ShortcutKey::Left,
        BareKey::Right => ShortcutKey::Right,
        BareKey::Up => ShortcutKey::Up,
        BareKey::Down => ShortcutKey::Down,
        BareKey::Home => ShortcutKey::Home,
        BareKey::End => ShortcutKey::End,
        BareKey::PageUp => ShortcutKey::PageUp,
        BareKey::PageDown => ShortcutKey::PageDown,
        BareKey::F(n) => ShortcutKey::F(*n),
        BareKey::CapsLock => ShortcutKey::Char('⇪'),
        BareKey::ScrollLock => ShortcutKey::Char('⤓'),
        BareKey::NumLock => ShortcutKey::Char('⇭'),
        BareKey::PrintScreen => ShortcutKey::Char('⎙'),
        BareKey::Pause => ShortcutKey::Char('⏸'),
        BareKey::Menu => ShortcutKey::Char('≡'),
    }
}

/// The event that a key with its modifiers is classified as.
pub open spec fn classified(key: KeyWithModifier) -> EventView {
    if key.ctrl || key.alt || key.super_key {
        EventView::Shortcut(
            ShortcutEvent {
                key: spec_shortcut_key(key.bare_key),
                ctrl: key.ctrl,
                alt: key.alt,
                shift: key.shift,
                super_key: key.super_key,
            },
        )
    } else if spec_nav_direction(key.bare_key) is Some {
        EventView::Navigation(
            NavigationEvent {
                direction: spec_nav_direction(key.bare_key)->0,
                count: 1,
                with_shift: key.shift,
                with_ctrl: false,
            },
        )
    } else {
        match key.bare_key {
            BareKey::Enter => EventView::EditControl(EditControlEvent::Enter),
            BareKey::Tab => EventView::EditControl(EditControlEvent::Tab),
            BareKey::Backspace => EventView::EditControl(EditControlEvent::Backspace { count: 1 }),
            BareKey::Delete => EventView::EditControl(EditControlEvent::Delete { count: 1 }),
            BareKey::Insert => EventView::EditControl(EditControlEvent::Insert),
            BareKey::Esc => EventView::Escape,
            BareKey::F(n) => EventView::FunctionKey(n),
            BareKey::Char(c) => EventView::TextTyped(seq![c]),
            BareKey::CapsLock => EventView::SystemKey(SystemKeyEvent::CapsLock),
            BareKey::ScrollLock => EventView::SystemKey(SystemKeyEvent::ScrollLock),
            BareKey::NumLock => EventView::SystemKey(SystemKeyEvent::NumLock),
            BareKey::PrintScreen => EventView::SystemKey(SystemKeyEvent::PrintScreen),
            BareKey::Pause => EventView::SystemKey(SystemKeyEvent::Pause),
            BareKey::Menu => EventView::SystemKey(SystemKeyEvent::Menu),
            _ => EventView::Shortcut(
                ShortcutEvent {
                    key: spec_shortcut_key(key.bare_key),
                    ctrl: false,
                    alt: false,
                    shift: key.shift,
                    super_key: false,
                },
            ),
        }
    }
}

/// Classify a key with its modifiers into a [`KeystrokeEvent`].
pub fn classify(key: &KeyWithModifier) -> (event: KeystrokeEvent)
    ensures
        event@ == classified(*key),
{
    if key.ctrl || key.alt || key.super_key {
        return KeystrokeEvent::Shortcut(
            ShortcutEvent {
                key: bare_key_to_shortcut_key(&key.bare_key),
                ctrl: key.ctrl,
                alt: key.alt,
                shift: key.shift,
                super_key: key.super_key,
            },
        );
    }
    if let Some(direction) = nav_direction(&key.bare_key) {
        return KeystrokeEvent::Navigation(
            NavigationEvent { direction, count: 1, with_shift: key.shift, with_ctrl: false },
        );
    }
    match key.bare_key {
        BareKey::Enter => KeystrokeEvent::EditControl(EditControlEvent::Enter),
        BareKey::Tab => KeystrokeEvent::EditControl(EditControlEvent::Tab),
        BareKey::Backspace => KeystrokeEvent::EditControl(EditControlEvent::Backspace { count: 1 }),
        BareKey::Delete => KeystrokeEvent::EditControl(EditControlEvent::Delete { count: 1 }),
        BareKey::Insert => KeystrokeEvent::EditControl(EditControlEvent::Insert),
        BareKey::Esc => KeystrokeEvent::Escape,
        BareKey::F(n) => KeystrokeEvent::FunctionKey(n),
        BareKey::Char(c) => KeystrokeEvent::TextTyped(scalar_text(c)),
        BareKey::CapsLock => KeystrokeEvent::SystemKey(SystemKeyEvent::CapsLock),
        BareKey::ScrollLock => KeystrokeEvent::SystemKey(SystemKeyEvent::ScrollLock),
        BareKey::NumLock => KeystrokeEvent::SystemKey(SystemKeyEvent::NumLock),
        BareKey::PrintScreen => KeystrokeEvent::SystemKey(SystemKeyEvent::PrintScreen),
        BareKey::Pause => KeystrokeEvent::SystemKey(SystemKeyEvent::Pause),
        BareKey::Menu => KeystrokeEvent::SystemKey(SystemKeyEvent::Menu),
        _ => KeystrokeEvent::Shortcut(
            ShortcutEvent {
                key: bare_key_to_shortcut_key(&key.bare_key),
                ctrl: false,
                alt: false,
                shift: key.shift,
                super_key: false,
            },
        ),
    }
}

/// The escape byte.
pub const ESC: u8 = 0x1b;

/// The byte of `[`.
pub const BRACKET: u8 = 0x5b;

/// The byte of `;`.
pub const SEMICOLON: u8 = 0x3b;

/// The byte of `~`.
pub const TILDE: u8 = 0x7e;

/// The byte of `O`.
pub const UPPER_O: u8 = 0x4f;

/// The byte of `P`.
pub const UPPER_P: u8 = 0x50;

/// The byte of `Z`.
pub const UPPER_Z: u8 = 0x5a;

/// The byte of `A`.
pub const UPPER_A: u8 = 0x41;

/// The byte of `B`.
pub const UPPER_B: u8 = 0x42;

/// The byte of `C`.
pub const UPPER_C: u8 = 0x43;

/// The byte of `D`.
pub const UPPER_D: u8 = 0x44;

/// The byte of `H`.
pub const UPPER_H: u8 = 0x48;

/// The byte of `F`.
pub const UPPER_F: u8 = 0x46;

/// The byte of `0`.
pub const DIGIT_0: u8 = 0x30;

/// The byte of `1`.
pub const DIGIT_1: u8 = 0x31;

/// The byte of `2`.
pub const DIGIT_2: u8 = 0x32;

/// The byte of `3`.
pub const DIGIT_3: u8 = 0x33;

/// The byte of `4`.
pub const DIGIT_4: u8 = 0x34;

/// The byte of `5`.
pub const DIGIT_5: u8 = 0x35;

/// The byte of `6`.
pub const DIGIT_6: u8 = 0x36;

/// The byte of `7`.
pub const DIGIT_7: u8 = 0x37;

/// The byte of `8`.
pub const DIGIT_8: u8 = 0x38;

/// The byte of `9`.
pub const DIGIT_9: u8 = 0x39;

/// The modifier parameter of a control sequence: `2` for Shift, `5` for
/// Ctrl, `6` for both, `1` for neither.
pub open spec fn spec_modifier_param(ctrl: bool, shift: bool) -> u8 {
    if ctrl && shift {
        DIGIT_6
    } else if ctrl {
        DIGIT_5
    } else if shift {
        DIGIT_2
    } else {
        DIGIT_1
    }
}

/// The modifier parameter of a control sequence.
pub fn modifier_param(ctrl: bool, shift: bool) -> (m: u8)
    ensures
        m == spec_modifier_param(ctrl, shift),
{
    if ctrl && shift {
        DIGIT_6
    } else if ctrl {
        DIGIT_5
    } else if shift {
        DIGIT_2
    } else {
        DIGIT_1
    }
}

/// The sequence of an arrow-like key that ends in `final_byte`: `ESC [`
/// and the final byte, with `1 ; modifier` in between when Ctrl or Shift is
/// held.
pub open spec fn spec_arrow_seq(final_byte: u8, ctrl: bool, shift: bool) -> Seq<u8> {
    if ctrl || shift {
        seq![ESC, BRACKET, DIGIT_1, SEMICOLON, spec_modifier_param(ctrl, shift), final_byte]
    } else {
        seq![ESC, BRACKET, final_byte]
    }
}

/// The sequence of an arrow-like key that ends in `final_byte`.
pub fn arrow_seq(final_byte: u8, ctrl: bool, shift: bool) -> (r: Vec<u8>)
    ensures
        r@ == spec_arrow_seq(final_byte, ctrl, shift),
{
    if ctrl || shift {
        let m = modifier_param(ctrl, shift);
        let r = vec![ESC, BRACKET, DIGIT_1, SEMICOLON, m, final_byte];
        assert(r@ =~= spec_arrow_seq(final_byte, ctrl, shift));
        r
    } else {
        let r = vec![ESC, BRACKET, final_byte];
        assert(r@ =~= spec_arrow_seq(final_byte, ctrl, shift));
        r
    }
}

/// The sequence of a key with the number `code`: `ESC [ code ~`, with
/// `; modifier` before the tilde when Ctrl or Shift is held.
pub open spec fn spec_tilde_seq(code: Seq<u8>, ctrl: bool, shift: bool) -> Seq<u8> {
    if ctrl || shift {
        seq![ESC, BRACKET] + code + seq![SEMICOLON, spec_modifier_param(ctrl, shift), TILDE]
    } else {
        seq![ESC, BRACKET] + code + seq![TILDE]
    }
}

/// The sequence of a key with the number `code`.
fn tilde_seq(code: &[u8], ctrl: bool, shift: bool) -> (r: Vec<u8>)
    ensures
        r@ == spec_tilde_seq(code@, ctrl, shift),
{
    let mut r: Vec<u8> = vec![ESC, BRACKET];
    let ghost head = r@;
    r.extend_from_slice(code);
    assert(r@ =~= head + code@);
    if ctrl || shift {
        let m = modifier_param(ctrl, shift);
        r.push(SEMICOLON);
        r.push(m);
        r.push(TILDE);
    } else {
        r.push(TILDE);
    }
    assert(r@ =~= spec_tilde_seq(code@, ctrl, shift));
    r
}

/// The control byte of Ctrl with `c`: 1 to 26 for the letters, whatever
/// their case, and the customary bytes for space and `[ \ ] ^ _`. Any other
/// scalar is sent as its UTF-8 encoding.
pub open spec fn spec_ctrl_char_bytes(c: char) -> Seq<u8> {
    if 'a' <= c <= 'z' {
        seq![(c as u32 - 'a' as u32 + 1) as u8]
    } else if 'A' <= c <= 'Z' {
        seq![(c as u32 - 'A' as u32 + 1) as u8]
    } else if c == ' ' {
        seq![0x00u8]
    } else if c == '[' {
        seq![0x1bu8]
    } else if c == '\\' {
        seq![0x1cu8]
    } else if c == ']' {
        seq![0x1du8]
    } else if c == '^' {
        seq![0x1eu8]
    } else if c == '_' {
        seq![0x1fu8]
    } else {
        encode_scalar(c as u32)
    }
}

/// The UTF-8 encoding of `c`.
fn utf8_bytes(c: char) -> (r: Vec<u8>)
    ensures
        r@ == encode_scalar(c as u32),
{
    let s = scalar_text(c);
    proof {
        lemma_scalar_width(c);
    }
    vstd::slice::slice_to_vec(s.as_str().as_bytes())
}

/// Encode Ctrl with `c` as a control byte.
pub fn ctrl_char_bytes(c: char) -> (r: Vec<u8>)
    ensures
        r@ == spec_ctrl_char_bytes(c),
{
    let code = c as u32;
    let r = if 'a' <= c && c <= 'z' {
        let byte = (code - 'a' as u32 + 1) as u8;
        vec![byte]
    } else if 'A' <= c && c <= 'Z' {
        let byte = (code - 'A' as u32 + 1) as u8;
        vec![byte]
    } else if c == ' ' {
        vec![0x00u8]
    } else if c == '[' {
        vec![0x1bu8]
    } else if c == '\\' {
        vec![0x1cu8]
    } else if c == ']' {
        vec![0x1du8]
    } else if c == '^' {
        vec![0x1eu8]
    } else if c == '_' {
        vec![0x1fu8]
    } else {
        utf8_bytes(c)
    };
    assert(r@ =~= spec_ctrl_char_bytes(c));
    r
}

/// The number that stands for the function key `n` in a control sequence.
pub open spec fn spec_fkey_code(n: u8) -> Option<Seq<u8>> {
    if n == 1 {
        Some(seq![DIGIT_1, DIGIT_1])
    } else if n == 2 {
        Some(seq![DIGIT_1, DIGIT_2])
    } else if n == 3 {
        Some(seq![DIGIT_1, DIGIT_3])
    } else if n == 4 {
        Some(seq![DIGIT_1, DIGIT_4])
    } else if n == 5 {
        Some(seq![DIGIT_1, DIGIT_5])
    } else if n == 6 {
        Some(seq![DIGIT_1, DIGIT_7])
    } else if n == 7 {
        Some(seq![DIGIT_1, DIGIT_8])
    } else if n == 8 {
        Some(seq![DIGIT_1, DIGIT_9])
    } else if n == 9 {
        Some(seq![DIGIT_2, DIGIT_0])
    } else if n == 10 {
        Some(seq![DIGIT_2, DIGIT_1])
    } else if n == 11 {
        Some(seq![DIGIT_2, DIGIT_3])
    } else if n == 12 {
        Some(seq![DIGIT_2, DIGIT_4])
    } else {
        None
    }
}

/// The number that stands for the function key `n`.
fn fkey_code(n: u8) -> (r: Option<Vec<u8>>)
    ensures
        match r {
            Some(code) => spec_fkey_code(n) == Some(code@),
            None => spec_fkey_code(n) is None,
        },
{
    let pair: Option<(u8, u8)> = if n == 1 {
        Some((DIGIT_1, DIGIT_1))
    } else if n == 2 {
        Some((DIGIT_1, DIGIT_2))
    } else if n == 3 {
        Some((DIGIT_1, DIGIT_3))
    } else if n == 4 {
        Some((DIGIT_1, DIGIT_4))
    } else if n == 5 {
        Some((DIGIT_1, DIGIT_5))
    } else if n == 6 {
        Some((DIGIT_1, DIGIT_7))
    } else if n == 7 {
        Some((DIGIT_1, DIGIT_8))
    } else if n == 8 {
        Some((DIGIT_1, DIGIT_9))
    } else if n == 9 {
        Some((DIGIT_2, DIGIT_0))
    } else if n == 10 {
        Some((DIGIT_2, DIGIT_1))
    } else if n == 11 {
        Some((DIGIT_2, DIGIT_3))
    } else if n == 12 {
        Some((DIGIT_2, DIGIT_4))
    } else {
        None
    };
    match pair {
        Some((tens, ones)) => {
            let code = vec![tens, ones];
            assert(code@ =~= seq![tens, ones]);
            Some(code)
        },
        None => None,
    }
}

/// The sequence of the function key `n`: F1 to F4 are `ESC O P` to
/// `ESC O S` and F5 to F12 are `ESC [ code ~`; with Ctrl or Shift all twelve
/// are `ESC [ code ; modifier ~`. There is no sequence for other numbers.
pub open spec fn spec_fkey_bytes(n: u8, ctrl: bool, shift: bool) -> Seq<u8> {
    match spec_fkey_code(n) {
        Some(code) => if !(ctrl || shift) && n <= 4 {
            seq![ESC, UPPER_O, (UPPER_P + n - 1) as u8]
        } else {
            spec_tilde_seq(code, ctrl, shift)
        },
        None => Seq::empty(),
    }
}

/// Encode the function keys F1 to F12, with optional Ctrl and Shift.
pub fn fkey_bytes(n: u8, ctrl: bool, shift: bool) -> (r: Vec<u8>)
    ensures
        r@ == spec_fkey_bytes(n, ctrl, shift),
{
    match fkey_code(n) {
        Some(code) => {
            if !(ctrl || shift) && n <= 4 {
                let last = UPPER_P + n - 1;
                let r = vec![ESC, UPPER_O, last];
                assert(r@ =~= spec_fkey_bytes(n, ctrl, shift));
                r
            } else {
                tilde_seq(code.as_slice(), ctrl, shift)
            }
        },
        None => Vec::new(),
    }
}

/// The bytes of a bare key with Ctrl and Shift taken into account.
pub open spec fn spec_bare_key_bytes(bare: BareKey, ctrl: bool, shift: bool) -> Seq<u8> {
    match bare {
        BareKey::Char(c) => if ctrl {
            spec_ctrl_char_bytes(c)
        } else {
            encode_scalar(c as u32)
        },
        BareKey::Enter => if ctrl {
            seq![0x0au8]
        } else {
            seq![0x0du8]
        },
        BareKey::Tab => if ctrl {
            seq![0x09u8]
        } else if shift {
            seq![ESC, BRACKET, UPPER_Z]
        } else {
            seq![0x09u8]
        },
        BareKey::Backspace => if ctrl {
            seq![0x08u8]
        } else {
            seq![0x7fu8]
        },
        BareKey::Esc => seq![ESC],
        BareKey::Delete => if ctrl {
            seq![ESC, BRACKET, DIGIT_3, SEMICOLON, DIGIT_5, TILDE]
        } else if shift {
            seq![ESC, BRACKET, DIGIT_3, SEMICOLON, DIGIT_2, TILDE]
        } else {
            seq![ESC, BRACKET, DIGIT_3, TILDE]
        },
        BareKey::Insert => if shift {
            seq![ESC, BRACKET, DIGIT_2, SEMICOLON, DIGIT_2, TILDE]
        } else {
            seq![ESC, BRACKET, DIGIT_2, TILDE]
        },
        BareKey::Up => spec_arrow_seq(UPPER_A, ctrl, shift),
        BareKey::Down => spec_arrow_seq(UPPER_B, ctrl, shift),
        BareKey::Right => spec_arrow_seq(UPPER_C, ctrl, shift),
        BareKey::Left => spec_arrow_seq(UPPER_D, ctrl, shift),
        BareKey::Home => spec_arrow_seq(UPPER_H, ctrl, shift),
        BareKey::End => spec_arrow_seq(UPPER_F, ctrl, shift),
        BareKey::PageUp => spec_tilde_seq(seq![DIGIT_5], ctrl, shift),
        BareKey::PageDown => spec_tilde_seq(seq![DIGIT_6], ctrl, shift),
        BareKey::F(n) => spec_fkey_bytes(n, ctrl, shift),
        _ => Seq::empty(),
    }
}

/// Produce the bytes of a bare key, taking Ctrl and Shift into account but
/// not Alt.
pub fn bare_key_to_bytes(bare: &BareKey, ctrl: bool, shift: bool) -> (r: Vec<u8>)
    ensures
        r@ == spec_bare_key_bytes(*bare, ctrl, shift),
{
    let r = match bare {
        BareKey::Char(c) => {
            if ctrl {
                ctrl_char_bytes(*c)
            } else {
                utf8_bytes(*c)
            }
        },
        BareKey::Enter => {
            if ctrl {
                vec![0x0au8]
            } else {
                vec![0x0du8]
            }
        },
        BareKey::Tab => {
            if ctrl {
                vec![0x09u8]
            } else if shift {
                vec![ESC, BRACKET, UPPER_Z]
            } else {
                vec![0x09u8]
            }
        },
        BareKey::Backspace => {
            if ctrl {
                vec![0x08u8]
            } else {
                vec![0x7fu8]
            }
        },
        BareKey::Esc => vec![ESC],
        BareKey::Delete => {
            if ctrl {
                vec![ESC, BRACKET, DIGIT_3, SEMICOLON, DIGIT_5, TILDE]
            } else if shift {
                vec![ESC, BRACKET, DIGIT_3, SEMICOLON, DIGIT_2, TILDE]
            } else {
                vec![ESC, BRACKET, DIGIT_3, TILDE]
            }
        },
        BareKey::Insert => {
            if shift {
                vec![ESC, BRACKET, DIGIT_2, SEMICOLON, DIGIT_2, TILDE]
            } else {
                vec![ESC, BRACKET, DIGIT_2, TILDE]
            }
        },
        BareKey::Up => arrow_seq(UPPER_A, ctrl, shift),
        BareKey::Down => arrow_seq(UPPER_B, ctrl, shift),
        BareKey::Right => arrow_seq(UPPER_C, ctrl, shift),
        BareKey::Left => arrow_seq(UPPER_D, ctrl, shift),
        BareKey::Home => arrow_seq(UPPER_H, ctrl, shift),
        BareKey::End => arrow_seq(UPPER_F, ctrl, shift),
        BareKey::PageUp => {
            let code = vec![DIGIT_5];
            assert(code@ =~= seq![DIGIT_5]);
            tilde_seq(code.as_slice(), ctrl, shift)
        },
        BareKey::PageDown => {
            let code = vec![DIGIT_6];
            assert(code@ =~= seq![DIGIT_6]);
            tilde_seq(code.as_slice(), ctrl, shift)
        },
        BareKey::F(n) => fkey_bytes(*n, ctrl, shift),
        _ => Vec::new(),
    };
    assert(r@ =~= spec_bare_key_bytes(*bare, ctrl, shift));
    r
}

/// The bytes that a key with its modifiers sends: those of the bare key with
/// Ctrl and Shift, after an escape byte when Alt is held and the key sends
/// anything at all.
pub open spec fn spec_key_bytes(key: KeyWithModifier) -> Seq<u8> {
    let inner = spec_bare_key_bytes(key.bare_key, key.ctrl, key.shift);
    if key.alt && inner.len() > 0 {
        seq![ESC] + inner
    } else {
        inner
    }
}

/// Encode a key with its modifiers as the byte sequence that a terminal
/// application expects to receive on its input.
pub fn key_to_bytes(key: &KeyWithModifier) -> (r: Vec<u8>)
    ensures
        r@ == spec_key_bytes(*key),
{
    let inner = bare_key_to_bytes(&key.bare_key, key.ctrl, key.shift);
    if key.alt && inner.len() > 0 {
        let mut out: Vec<u8> = Vec::new();
        out.push(ESC);
        out.extend_from_slice(inner.as_slice());
        assert(out@ =~= seq![ESC] + inner@);
        out
    } else {
        inner
    }
}

} // verus!
