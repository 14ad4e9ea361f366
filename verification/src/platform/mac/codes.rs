//! The key codes of macOS, and its modifier flags.

use vstd::prelude::*;

use crate::keys::{digits, function_keys, letters, Key, ModifierState};

verus! {

/// The key with the key code `code`; a code without a name is passed on.
pub open spec fn key_of_cg(code: u16) -> Key {
    match code {
        0 => Key::A,
        11 => Key::B,
        8 => Key::C,
        2 => Key::D,
        14 => Key::E,
        3 => Key::F,
        5 => Key::G,
        4 => Key::H,
        34 => Key::I,
        38 => Key::J,
        40 => Key::K,
        37 => Key::L,
        46 => Key::M,
        45 => Key::N,
        31 => Key::O,
        35 => Key::P,
        12 => Key::Q,
        15 => Key::R,
        1 => Key::S,
        17 => Key::T,
        32 => Key::U,
        9 => Key::V,
        13 => Key::W,
        7 => Key::X,
        16 => Key::Y,
        6 => Key::Z,
        29 => Key::Digit0,
        18 => Key::Digit1,
        19 => Key::Digit2,
        20 => Key::Digit3,
        21 => Key::Digit4,
        23 => Key::Digit5,
        22 => Key::Digit6,
        26 => Key::Digit7,
        28 => Key::Digit8,
        25 => Key::Digit9,
        56 => Key::Shift,
        59 => Key::Ctrl,
        58 => Key::Alt,
        55 => Key::Super,
        60 => Key::Shift,
        62 => Key::Ctrl,
        61 => Key::Alt,
        54 => Key::Super,
        36 => Key::Enter,
        49 => Key::Space,
        51 => Key::Backspace,
        48 => Key::Tab,
        53 => Key::Esc,
        123 => Key::ArrowLeft,
        126 => Key::ArrowUp,
        124 => Key::ArrowRight,
        125 => Key::ArrowDown,
        117 => Key::Delete,
        115 => Key::Home,
        119 => Key::End,
        116 => Key::PageUp,
        121 => Key::PageDown,
        114 => Key::Insert,
        57 => Key::CapsLock,
        43 => Key::Comma,
        47 => Key::Period,
        44 => Key::Slash,
        41 => Key::Semicolon,
        39 => Key::Quote,
        33 => Key::LBracket,
        30 => Key::RBracket,
        42 => Key::Backslash,
        27 => Key::Minus,
        24 => Key::Equals,
        50 => Key::Backtick,
        122 => Key::F1,
        120 => Key::F2,
        99 => Key::F3,
        118 => Key::F4,
        96 => Key::F5,
        97 => Key::F6,
        98 => Key::F7,
        100 => Key::F8,
        101 => Key::F9,
        109 => Key::F10,
        103 => Key::F11,
        111 => Key::F12,
        _ => Key::Other(code as u32),
    }
}

/// The key with the key code `code`.
pub fn cg_to_key(code: u16) -> (key: Key)
    ensures
        key == key_of_cg(code),
{
    match code {
        0 => Key::A,
        11 => Key::B,
        8 => Key::C,
        2 => Key::D,
        14 => Key::E,
        3 => Key::F,
        5 => Key::G,
        4 => Key::H,
        34 => Key::I,
        38 => Key::J,
        40 => Key::K,
        37 => Key::L,
        46 => Key::M,
        45 => Key::N,
        31 => Key::O,
        35 => Key::P,
        12 => Key::Q,
        15 => Key::R,
        1 => Key::S,
        17 => Key::T,
        32 => Key::U,
        9 => Key::V,
        13 => Key::W,
        7 => Key::X,
        16 => Key::Y,
        6 => Key::Z,
        29 => Key::Digit0,
        18 => Key::Digit1,
        19 => Key::Digit2,
        20 => Key::Digit3,
        21 => Key::Digit4,
        23 => Key::Digit5,
        22 => Key::Digit6,
        26 => Key::Digit7,
        28 => Key::Digit8,
        25 => Key::Digit9,
        56 => Key::Shift,
        59 => Key::Ctrl,
        58 => Key::Alt,
        55 => Key::Super,
        60 => Key::Shift,
        62 => Key::Ctrl,
        61 => Key::Alt,
        54 => Key::Super,
        36 => Key::Enter,
        49 => Key::Space,
        51 => Key::Backspace,
        48 => Key::Tab,
        53 => Key::Esc,
        123 => Key::ArrowLeft,
        126 => Key::ArrowUp,
        124 => Key::ArrowRight,
        125 => Key::ArrowDown,
        117 => Key::Delete,
        115 => Key::Home,
        119 => Key::End,
        116 => Key::PageUp,
        121 => Key::PageDown,
        114 => Key::Insert,
        57 => Key::CapsLock,
        43 => Key::Comma,
        47 => Key::Period,
        44 => Key::Slash,
        41 => Key::Semicolon,
        39 => Key::Quote,
        33 => Key::LBracket,
        30 => Key::RBracket,
        42 => Key::Backslash,
        27 => Key::Minus,
        24 => Key::Equals,
        50 => Key::Backtick,
        122 => Key::F1,
        120 => Key::F2,
        99 => Key::F3,
        118 => Key::F4,
        96 => Key::F5,
        97 => Key::F6,
        98 => Key::F7,
        100 => Key::F8,
        101 => Key::F9,
        109 => Key::F10,
        103 => Key::F11,
        111 => Key::F12,
        _ => Key::Other(code as u32),
    }
}

/// The key code that plays a key. Keys with two codes are played with the
/// first.
pub open spec fn cg_of_key(key: Key) -> u16 {
    match key {
        Key::A => 0,
        Key::B => 11,
        Key::C => 8,
        Key::D => 2,
        Key::E => 14,
        Key::F => 3,
        Key::G => 5,
        Key::H => 4,
        Key::I => 34,
        Key::J => 38,
        Key::K => 40,
        Key::L => 37,
        Key::M => 46,
        Key::N => 45,
        Key::O => 31,
        Key::P => 35,
        Key::Q => 12,
        Key::R => 15,
        Key::S => 1,
        Key::T => 17,
        Key::U => 32,
        Key::V => 9,
        Key::W => 13,
        Key::X => 7,
        Key::Y => 16,
        Key::Z => 6,
        Key::Digit0 => 29,
        Key::Digit1 => 18,
        Key::Digit2 => 19,
        Key::Digit3 => 20,
        Key::Digit4 => 21,
        Key::Digit5 => 23,
        Key::Digit6 => 22,
        Key::Digit7 => 26,
        Key::Digit8 => 28,
        Key::Digit9 => 25,
        Key::Ctrl => 59,
        Key::Alt => 58,
        Key::Shift => 56,
        Key::Super => 55,
        Key::Enter => 36,
        Key::Space => 49,
        Key::Backspace => 51,
        Key::Tab => 48,
        Key::Esc => 53,
        Key::ArrowUp => 126,
        Key::ArrowDown => 125,
        Key::ArrowLeft => 123,
        Key::ArrowRight => 124,
        Key::F1 => 122,
        Key::F2 => 120,
        Key::F3 => 99,
        Key::F4 => 118,
        Key::F5 => 96,
        Key::F6 => 97,
        Key::F7 => 98,
        Key::F8 => 100,
        Key::F9 => 101,
        Key::F10 => 109,
        Key::F11 => 103,
        Key::F12 => 111,
        Key::Delete => 117,
        Key::Home => 115,
        Key::End => 119,
        Key::PageUp => 116,
        Key::PageDown => 121,
        Key::Insert => 114,
        Key::CapsLock => 57,
        Key::Comma => 43,
        Key::Period => 47,
        Key::Slash => 44,
        Key::Semicolon => 41,
        Key::Quote => 39,
        Key::LBracket => 33,
        Key::RBracket => 30,
        Key::Backslash => 42,
        Key::Minus => 27,
        Key::Equals => 24,
        Key::Backtick => 50,
        Key::Other(n) => (n % 0x1_0000) as u16,
    }
}

/// The key code that plays a key.
pub fn key_to_cg(key: Key) -> (code: u16)
    ensures
        code == cg_of_key(key),
{
    match key {
        Key::A => 0,
        Key::B => 11,
        Key::C => 8,
        Key::D => 2,
        Key::E => 14,
        Key::F => 3,
        Key::G => 5,
        Key::H => 4,
        Key::I => 34,
        Key::J => 38,
        Key::K => 40,
        Key::L => 37,
        Key::M => 46,
        Key::N => 45,
        Key::O => 31,
        Key::P => 35,
        Key::Q => 12,
        Key::R => 15,
        Key::S => 1,
        Key::T => 17,
        Key::U => 32,
        Key::V => 9,
        Key::W => 13,
        Key::X => 7,
        Key::Y => 16,
        Key::Z => 6,
        Key::Digit0 => 29,
        Key::Digit1 => 18,
        Key::Digit2 => 19,
        Key::Digit3 => 20,
        Key::Digit4 => 21,
        Key::Digit5 => 23,
        Key::Digit6 => 22,
        Key::Digit7 => 26,
        Key::Digit8 => 28,
        Key::Digit9 => 25,
        Key::Ctrl => 59,
        Key::Alt => 58,
        Key::Shift => 56,
        Key::Super => 55,
        Key::Enter => 36,
        Key::Space => 49,
        Key::Backspace => 51,
        Key::Tab => 48,
        Key::Esc => 53,
        Key::ArrowUp => 126,
        Key::ArrowDown => 125,
        Key::ArrowLeft => 123,
        Key::ArrowRight => 124,
        Key::F1 => 122,
        Key::F2 => 120,
        Key::F3 => 99,
        Key::F4 => 118,
        Key::F5 => 96,
        Key::F6 => 97,
        Key::F7 => 98,
        Key::F8 => 100,
        Key::F9 => 101,
        Key::F10 => 109,
        Key::F11 => 103,
        Key::F12 => 111,
        Key::Delete => 117,
        Key::Home => 115,
        Key::End => 119,
        Key::PageUp => 116,
        Key::PageDown => 121,
        Key::Insert => 114,
        Key::CapsLock => 57,
        Key::Comma => 43,
        Key::Period => 47,
        Key::Slash => 44,
        Key::Semicolon => 41,
        Key::Quote => 39,
        Key::LBracket => 33,
        Key::RBracket => 30,
        Key::Backslash => 42,
        Key::Minus => 27,
        Key::Equals => 24,
        Key::Backtick => 50,
        Key::Other(n) => (n % 0x1_0000) as u16,
    }
}

/// Every key that has a name is played as itself, and every code that is played
/// for a key stands for that key.
pub proof fn law_cg_to_key_round_trip(key: Key)
    requires
        !(key is Other),
    ensures
        key_of_cg(cg_of_key(key)) == key,
{
}

/// A code without a name goes to the other machine and back unchanged.
pub proof fn law_unnamed_cg_passes(code: u16)
    requires
        key_of_cg(code) is Other,
    ensures
        cg_of_key(key_of_cg(code)) == code,
{
}

pub const FLAG_CAPS_LOCK: u64 = 0x0001_0000;

pub const FLAG_SHIFT: u64 = 0x0002_0000;

pub const FLAG_CONTROL: u64 = 0x0004_0000;

pub const FLAG_OPTION: u64 = 0x0008_0000;

pub const FLAG_COMMAND: u64 = 0x0010_0000;

/// Whether the flags of an event hold one of them.
pub open spec fn has_flag(flags: u64, flag: u64) -> bool {
    (flags / flag) % 2 == 1
}

/// Whether the key whose change of flags this is went down. Other keys than
/// modifiers and Caps Lock only go down this way.
pub open spec fn is_modifier_down(key: Key, flags: u64) -> bool {
    match key {
        Key::Shift => has_flag(flags, FLAG_SHIFT),
        Key::Ctrl => has_flag(flags, FLAG_CONTROL),
        Key::Alt => has_flag(flags, FLAG_OPTION),
        Key::Super => has_flag(flags, FLAG_COMMAND),
        Key::CapsLock => has_flag(flags, FLAG_CAPS_LOCK),
        _ => true,
    }
}

/// Whether the key whose change of flags this is went down.
pub fn modifier_down(key: Key, flags: u64) -> (down: bool)
    ensures
        down == is_modifier_down(key, flags),
{
    match key {
        Key::Shift => (flags / FLAG_SHIFT) % 2 == 1,
        Key::Ctrl => (flags / FLAG_CONTROL) % 2 == 1,
        Key::Alt => (flags / FLAG_OPTION) % 2 == 1,
        Key::Super => (flags / FLAG_COMMAND) % 2 == 1,
        Key::CapsLock => (flags / FLAG_CAPS_LOCK) % 2 == 1,
        _ => true,
    }
}

/// The flags of an event while `m` is held.
pub open spec fn flags_of(m: ModifierState) -> u64 {
    let control: u64 = if m.ctrl { FLAG_CONTROL } else { 0 };
    let option: u64 = if m.alt { FLAG_OPTION } else { 0 };
    let shift: u64 = if m.shift { FLAG_SHIFT } else { 0 };
    let command: u64 = if m.super_key { FLAG_COMMAND } else { 0 };
    (control + option + shift + command) as u64
}

/// The flags of an event while `modifiers` are held.
pub fn mac_event_flags(modifiers: ModifierState) -> (flags: u64)
    ensures
        flags == flags_of(modifiers),
{
    let control: u64 = if modifiers.ctrl { FLAG_CONTROL } else { 0 };
    let option: u64 = if modifiers.alt { FLAG_OPTION } else { 0 };
    let shift: u64 = if modifiers.shift { FLAG_SHIFT } else { 0 };
    let command: u64 = if modifiers.super_key { FLAG_COMMAND } else { 0 };
    control + option + shift + command
}

/// The flags of an event tell which modifiers are held, and nothing else.
pub proof fn law_flags_tell_the_modifiers(m: ModifierState)
    ensures
        is_modifier_down(Key::Shift, flags_of(m)) == m.shift,
        is_modifier_down(Key::Ctrl, flags_of(m)) == m.ctrl,
        is_modifier_down(Key::Alt, flags_of(m)) == m.alt,
        is_modifier_down(Key::Super, flags_of(m)) == m.super_key,
        !is_modifier_down(Key::CapsLock, flags_of(m)),
{
}

/// The codes of the letters in their order.
pub open spec fn mac_letter_codes() -> Seq<u16> {
    seq![
        0, 11, 8, 2, 14, 3, 5, 4, 34, 38, 40, 37, 46, 45, 31, 35, 12, 15, 1, 17, 32, 9, 13, 7, 16,
        6,
    ]
}

/// The codes of the digits in their order.
pub open spec fn mac_digit_codes() -> Seq<u16> {
    seq![29, 18, 19, 20, 21, 23, 22, 26, 28, 25]
}

/// The codes of the function keys in their order.
pub open spec fn mac_function_codes() -> Seq<u16> {
    seq![122, 120, 99, 118, 96, 97, 98, 100, 101, 109, 103, 111]
}

/// The keys beside letters, digits and function keys, with their codes.
pub open spec fn mac_codes() -> Seq<(Key, u16)> {
    seq![
        (Key::Equals, 24), (Key::Minus, 27), (Key::RBracket, 30), (Key::LBracket, 33),
        (Key::Enter, 36), (Key::Quote, 39), (Key::Semicolon, 41), (Key::Backslash, 42),
        (Key::Comma, 43), (Key::Slash, 44), (Key::Period, 47), (Key::Tab, 48), (Key::Space, 49),
        (Key::Backtick, 50), (Key::Backspace, 51), (Key::Esc, 53), (Key::Super, 55),
        (Key::Shift, 56), (Key::CapsLock, 57), (Key::Alt, 58), (Key::Ctrl, 59), (Key::Insert, 114),
        (Key::Home, 115), (Key::PageUp, 116), (Key::Delete, 117), (Key::End, 119),
        (Key::PageDown, 121), (Key::ArrowLeft, 123), (Key::ArrowRight, 124), (Key::ArrowDown, 125),
        (Key::ArrowUp, 126),
    ]
}

/// The codes of the right modifier keys, which are not told apart from the left ones.
pub open spec fn right_modifier_codes() -> Seq<(Key, u16)> {
    seq![(Key::Super, 54), (Key::Shift, 60), (Key::Alt, 61), (Key::Ctrl, 62)]
}

/// Every named key has the code that macOS gives it, and every such code stands for that
/// key.
pub proof fn law_cg_codes_are_those_of_macos(i: int)
    ensures
        0 <= i < 26 ==> cg_of_key(letters()[i]) == mac_letter_codes()[i] && key_of_cg(
            mac_letter_codes()[i],
        ) == letters()[i],
        0 <= i < 10 ==> cg_of_key(digits()[i]) == mac_digit_codes()[i] && key_of_cg(
            mac_digit_codes()[i],
        ) == digits()[i],
        0 <= i < 12 ==> cg_of_key(function_keys()[i]) == mac_function_codes()[i] && key_of_cg(
            mac_function_codes()[i],
        ) == function_keys()[i],
        0 <= i < mac_codes().len() ==> cg_of_key(mac_codes()[i].0) == mac_codes()[i].1 && key_of_cg(
            mac_codes()[i].1,
        ) == mac_codes()[i].0,
        0 <= i < right_modifier_codes().len() ==> key_of_cg(right_modifier_codes()[i].1)
            == right_modifier_codes()[i].0,
{
}

/// A code without a name keeps its number, and no code above those of the keyboard has
/// one.
pub proof fn law_other_cg_codes_keep_their_number(code: u16)
    ensures
        code > 126 || code == 10 || code == 52 || 63 <= code <= 95 ==> key_of_cg(code)
            == Key::Other(code as u32),
        key_of_cg(code) matches Key::Other(n) ==> n == code,
        cg_of_key(Key::Other(code as u32)) == code,
{
}

/// Shift, Control, Option, Command and Caps Lock are the flags 0x20000, 0x40000, 0x80000,
/// 0x100000 and 0x10000: each held modifier adds its own, and a change of flags is a key
/// going down exactly if its flag is there.
pub proof fn law_flags_are_those_of_macos(m: ModifierState, flags: u64)
    ensures
        flags_of(m) == (if m.shift {
            0x2_0000int
        } else {
            0
        }) + (if m.ctrl {
            0x4_0000int
        } else {
            0
        }) + (if m.alt {
            0x8_0000int
        } else {
            0
        }) + (if m.super_key {
            0x10_0000int
        } else {
            0
        }),
        is_modifier_down(Key::Shift, flags) == ((flags / 0x2_0000) % 2 == 1),
        is_modifier_down(Key::Ctrl, flags) == ((flags / 0x4_0000) % 2 == 1),
        is_modifier_down(Key::Alt, flags) == ((flags / 0x8_0000) % 2 == 1),
        is_modifier_down(Key::Super, flags) == ((flags / 0x10_0000) % 2 == 1),
        is_modifier_down(Key::CapsLock, flags) == ((flags / 0x1_0000) % 2 == 1),
        is_modifier_down(Key::A, flags),
{
}

} // verus!
