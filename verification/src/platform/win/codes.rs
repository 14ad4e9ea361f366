//! The virtual key codes of Windows.

use vstd::prelude::*;

use crate::keys::{digits, function_keys, letters, Key};

verus! {

/// The key with the virtual-key code `code`; a code without a name is passed on.
pub open spec fn key_of_vk(code: u32) -> Key {
    match code {
        0x41 => Key::A,
        0x42 => Key::B,
        0x43 => Key::C,
        0x44 => Key::D,
        0x45 => Key::E,
        0x46 => Key::F,
        0x47 => Key::G,
        0x48 => Key::H,
        0x49 => Key::I,
        0x4A => Key::J,
        0x4B => Key::K,
        0x4C => Key::L,
        0x4D => Key::M,
        0x4E => Key::N,
        0x4F => Key::O,
        0x50 => Key::P,
        0x51 => Key::Q,
        0x52 => Key::R,
        0x53 => Key::S,
        0x54 => Key::T,
        0x55 => Key::U,
        0x56 => Key::V,
        0x57 => Key::W,
        0x58 => Key::X,
        0x59 => Key::Y,
        0x5A => Key::Z,
        0x30 => Key::Digit0,
        0x31 => Key::Digit1,
        0x32 => Key::Digit2,
        0x33 => Key::Digit3,
        0x34 => Key::Digit4,
        0x35 => Key::Digit5,
        0x36 => Key::Digit6,
        0x37 => Key::Digit7,
        0x38 => Key::Digit8,
        0x39 => Key::Digit9,
        0x10 => Key::Shift,
        0xA0 => Key::Shift,
        0xA1 => Key::Shift,
        0x11 => Key::Ctrl,
        0xA2 => Key::Ctrl,
        0xA3 => Key::Ctrl,
        0x12 => Key::Alt,
        0xA4 => Key::Alt,
        0xA5 => Key::Alt,
        0x5B => Key::Super,
        0x5C => Key::Super,
        0x0D => Key::Enter,
        0x20 => Key::Space,
        0x08 => Key::Backspace,
        0x09 => Key::Tab,
        0x1B => Key::Esc,
        0x25 => Key::ArrowLeft,
        0x26 => Key::ArrowUp,
        0x27 => Key::ArrowRight,
        0x28 => Key::ArrowDown,
        0x2E => Key::Delete,
        0x24 => Key::Home,
        0x23 => Key::End,
        0x21 => Key::PageUp,
        0x22 => Key::PageDown,
        0x2D => Key::Insert,
        0x14 => Key::CapsLock,
        0xBC => Key::Comma,
        0xBE => Key::Period,
        0xBF => Key::Slash,
        0xBA => Key::Semicolon,
        0xDE => Key::Quote,
        0xDB => Key::LBracket,
        0xDD => Key::RBracket,
        0xDC => Key::Backslash,
        0xBD => Key::Minus,
        0xBB => Key::Equals,
        0xC0 => Key::Backtick,
        0x70 => Key::F1,
        0x71 => Key::F2,
        0x72 => Key::F3,
        0x73 => Key::F4,
        0x74 => Key::F5,
        0x75 => Key::F6,
        0x76 => Key::F7,
        0x77 => Key::F8,
        0x78 => Key::F9,
        0x79 => Key::F10,
        0x7A => Key::F11,
        0x7B => Key::F12,
        _ => Key::Other(code),
    }
}

/// The key with the virtual-key code `code`.
pub fn vk_to_key(code: u32) -> (key: Key)
    ensures
        key == key_of_vk(code),
{
    match code {
        0x41 => Key::A,
        0x42 => Key::B,
        0x43 => Key::C,
        0x44 => Key::D,
        0x45 => Key::E,
        0x46 => Key::F,
        0x47 => Key::G,
        0x48 => Key::H,
        0x49 => Key::I,
        0x4A => Key::J,
        0x4B => Key::K,
        0x4C => Key::L,
        0x4D => Key::M,
        0x4E => Key::N,
        0x4F => Key::O,
        0x50 => Key::P,
        0x51 => Key::Q,
        0x52 => Key::R,
        0x53 => Key::S,
        0x54 => Key::T,
        0x55 => Key::U,
        0x56 => Key::V,
        0x57 => Key::W,
        0x58 => Key::X,
        0x59 => Key::Y,
        0x5A => Key::Z,
        0x30 => Key::Digit0,
        0x31 => Key::Digit1,
        0x32 => Key::Digit2,
        0x33 => Key::Digit3,
        0x34 => Key::Digit4,
        0x35 => Key::Digit5,
        0x36 => Key::Digit6,
        0x37 => Key::Digit7,
        0x38 => Key::Digit8,
        0x39 => Key::Digit9,
        0x10 => Key::Shift,
        0xA0 => Key::Shift,
        0xA1 => Key::Shift,
        0x11 => Key::Ctrl,
        0xA2 => Key::Ctrl,
        0xA3 => Key::Ctrl,
        0x12 => Key::Alt,
        0xA4 => Key::Alt,
        0xA5 => Key::Alt,
        0x5B => Key::Super,
        0x5C => Key::Super,
        0x0D => Key::Enter,
        0x20 => Key::Space,
        0x08 => Key::Backspace,
        0x09 => Key::Tab,
        0x1B => Key::Esc,
        0x25 => Key::ArrowLeft,
        0x26 => Key::ArrowUp,
        0x27 => Key::ArrowRight,
        0x28 => Key::ArrowDown,
        0x2E => Key::Delete,
        0x24 => Key::Home,
        0x23 => Key::End,
        0x21 => Key::PageUp,
        0x22 => Key::PageDown,
        0x2D => Key::Insert,
        0x14 => Key::CapsLock,
        0xBC => Key::Comma,
        0xBE => Key::Period,
        0xBF => Key::Slash,
        0xBA => Key::Semicolon,
        0xDE => Key::Quote,
        0xDB => Key::LBracket,
        0xDD => Key::RBracket,
        0xDC => Key::Backslash,
        0xBD => Key::Minus,
        0xBB => Key::Equals,
        0xC0 => Key::Backtick,
        0x70 => Key::F1,
        0x71 => Key::F2,
        0x72 => Key::F3,
        0x73 => Key::F4,
        0x74 => Key::F5,
        0x75 => Key::F6,
        0x76 => Key::F7,
        0x77 => Key::F8,
        0x78 => Key::F9,
        0x79 => Key::F10,
        0x7A => Key::F11,
        0x7B => Key::F12,
        _ => Key::Other(code),
    }
}

/// The virtual-key code that plays a key. Keys with two codes are played with the
/// first.
pub open spec fn vk_of_key(key: Key) -> u32 {
    match key {
        Key::A => 0x41,
        Key::B => 0x42,
        Key::C => 0x43,
        Key::D => 0x44,
        Key::E => 0x45,
        Key::F => 0x46,
        Key::G => 0x47,
        Key::H => 0x48,
        Key::I => 0x49,
        Key::J => 0x4A,
        Key::K => 0x4B,
        Key::L => 0x4C,
        Key::M => 0x4D,
        Key::N => 0x4E,
        Key::O => 0x4F,
        Key::P => 0x50,
        Key::Q => 0x51,
        Key::R => 0x52,
        Key::S => 0x53,
        Key::T => 0x54,
        Key::U => 0x55,
        Key::V => 0x56,
        Key::W => 0x57,
        Key::X => 0x58,
        Key::Y => 0x59,
        Key::Z => 0x5A,
        Key::Digit0 => 0x30,
        Key::Digit1 => 0x31,
        Key::Digit2 => 0x32,
        Key::Digit3 => 0x33,
        Key::Digit4 => 0x34,
        Key::Digit5 => 0x35,
        Key::Digit6 => 0x36,
        Key::Digit7 => 0x37,
        Key::Digit8 => 0x38,
        Key::Digit9 => 0x39,
        Key::Ctrl => 0x11,
        Key::Alt => 0x12,
        Key::Shift => 0x10,
        Key::Super => 0x5B,
        Key::Enter => 0x0D,
        Key::Space => 0x20,
        Key::Backspace => 0x08,
        Key::Tab => 0x09,
        Key::Esc => 0x1B,
        Key::ArrowUp => 0x26,
        Key::ArrowDown => 0x28,
        Key::ArrowLeft => 0x25,
        Key::ArrowRight => 0x27,
        Key::F1 => 0x70,
        Key::F2 => 0x71,
        Key::F3 => 0x72,
        Key::F4 => 0x73,
        Key::F5 => 0x74,
        Key::F6 => 0x75,
        Key::F7 => 0x76,
        Key::F8 => 0x77,
        Key::F9 => 0x78,
        Key::F10 => 0x79,
        Key::F11 => 0x7A,
        Key::F12 => 0x7B,
        Key::Delete => 0x2E,
        Key::Home => 0x24,
        Key::End => 0x23,
        Key::PageUp => 0x21,
        Key::PageDown => 0x22,
        Key::Insert => 0x2D,
        Key::CapsLock => 0x14,
        Key::Comma => 0xBC,
        Key::Period => 0xBE,
        Key::Slash => 0xBF,
        Key::Semicolon => 0xBA,
        Key::Quote => 0xDE,
        Key::LBracket => 0xDB,
        Key::RBracket => 0xDD,
        Key::Backslash => 0xDC,
        Key::Minus => 0xBD,
        Key::Equals => 0xBB,
        Key::Backtick => 0xC0,
        Key::Other(n) => n,
    }
}

/// The virtual-key code that plays a key.
pub fn key_to_vk(key: Key) -> (code: u32)
    ensures
        code == vk_of_key(key),
{
    match key {
        Key::A => 0x41,
        Key::B => 0x42,
        Key::C => 0x43,
        Key::D => 0x44,
        Key::E => 0x45,
        Key::F => 0x46,
        Key::G => 0x47,
        Key::H => 0x48,
        Key::I => 0x49,
        Key::J => 0x4A,
        Key::K => 0x4B,
        Key::L => 0x4C,
        Key::M => 0x4D,
        Key::N => 0x4E,
        Key::O => 0x4F,
        Key::P => 0x50,
        Key::Q => 0x51,
        Key::R => 0x52,
        Key::S => 0x53,
        Key::T => 0x54,
        Key::U => 0x55,
        Key::V => 0x56,
        Key::W => 0x57,
        Key::X => 0x58,
        Key::Y => 0x59,
        Key::Z => 0x5A,
        Key::Digit0 => 0x30,
        Key::Digit1 => 0x31,
        Key::Digit2 => 0x32,
        Key::Digit3 => 0x33,
        Key::Digit4 => 0x34,
        Key::Digit5 => 0x35,
        Key::Digit6 => 0x36,
        Key::Digit7 => 0x37,
        Key::Digit8 => 0x38,
        Key::Digit9 => 0x39,
        Key::Ctrl => 0x11,
        Key::Alt => 0x12,
        Key::Shift => 0x10,
        Key::Super => 0x5B,
        Key::Enter => 0x0D,
        Key::Space => 0x20,
        Key::Backspace => 0x08,
        Key::Tab => 0x09,
        Key::Esc => 0x1B,
        Key::ArrowUp => 0x26,
        Key::ArrowDown => 0x28,
        Key::ArrowLeft => 0x25,
        Key::ArrowRight => 0x27,
        Key::F1 => 0x70,
        Key::F2 => 0x71,
        Key::F3 => 0x72,
        Key::F4 => 0x73,
        Key::F5 => 0x74,
        Key::F6 => 0x75,
        Key::F7 => 0x76,
        Key::F8 => 0x77,
        Key::F9 => 0x78,
        Key::F10 => 0x79,
        Key::F11 => 0x7A,
        Key::F12 => 0x7B,
        Key::Delete => 0x2E,
        Key::Home => 0x24,
        Key::End => 0x23,
        Key::PageUp => 0x21,
        Key::PageDown => 0x22,
        Key::Insert => 0x2D,
        Key::CapsLock => 0x14,
        Key::Comma => 0xBC,
        Key::Period => 0xBE,
        Key::Slash => 0xBF,
        Key::Semicolon => 0xBA,
        Key::Quote => 0xDE,
        Key::LBracket => 0xDB,
        Key::RBracket => 0xDD,
        Key::Backslash => 0xDC,
        Key::Minus => 0xBD,
        Key::Equals => 0xBB,
        Key::Backtick => 0xC0,
        Key::Other(n) => n,
    }
}

/// Every key that has a name is played as itself, and every code that is played
/// for a key stands for that key.
pub proof fn law_vk_to_key_round_trip(key: Key)
    requires
        !(key is Other),
    ensures
        key_of_vk(vk_of_key(key)) == key,
{
}

/// A code without a name goes to the other machine and back unchanged.
pub proof fn law_unnamed_vk_passes(code: u32)
    requires
        key_of_vk(code) is Other,
    ensures
        vk_of_key(key_of_vk(code)) == code,
{
}

/// Letters and digits have the codes of their capital letters and digits in ASCII, the
/// function keys follow each other from 0x70 on, and the other named keys have the codes
/// that Windows documents.
pub proof fn law_vk_codes_are_those_of_windows(i: int)
    ensures
        0 <= i < 26 ==> vk_of_key(letters()[i]) == 'A' as int + i && key_of_vk(
            ('A' as int + i) as u32,
        ) == letters()[i],
        0 <= i < 10 ==> vk_of_key(digits()[i]) == '0' as int + i && key_of_vk(
            ('0' as int + i) as u32,
        ) == digits()[i],
        0 <= i < 12 ==> vk_of_key(function_keys()[i]) == 0x70 + i && key_of_vk((0x70 + i) as u32)
            == function_keys()[i],
        0 <= i < windows_codes().len() ==> vk_of_key(windows_codes()[i].0) == windows_codes()[i].1
            && key_of_vk(windows_codes()[i].1) == windows_codes()[i].0,
        0 <= i < other_windows_codes().len() ==> key_of_vk(other_windows_codes()[i].1)
            == other_windows_codes()[i].0,
{
}

/// The keys beside letters, digits and function keys, with their codes.
pub open spec fn windows_codes() -> Seq<(Key, u32)> {
    seq![
        (Key::Backspace, 8), (Key::Tab, 9), (Key::Enter, 13), (Key::Shift, 16), (Key::Ctrl, 17),
        (Key::Alt, 18), (Key::CapsLock, 20), (Key::Esc, 27), (Key::Space, 32), (Key::PageUp, 33),
        (Key::PageDown, 34), (Key::End, 35), (Key::Home, 36), (Key::ArrowLeft, 37),
        (Key::ArrowUp, 38), (Key::ArrowRight, 39), (Key::ArrowDown, 40), (Key::Insert, 45),
        (Key::Delete, 46), (Key::Super, 91), (Key::Semicolon, 186), (Key::Equals, 187),
        (Key::Comma, 188), (Key::Minus, 189), (Key::Period, 190), (Key::Slash, 191),
        (Key::Backtick, 192), (Key::LBracket, 219), (Key::Backslash, 220), (Key::RBracket, 221),
        (Key::Quote, 222),
    ]
}

/// The codes of the left and right modifier keys, which are not told apart.
pub open spec fn other_windows_codes() -> Seq<(Key, u32)> {
    seq![
        (Key::Super, 92), (Key::Shift, 160), (Key::Shift, 161), (Key::Ctrl, 162), (Key::Ctrl, 163),
        (Key::Alt, 164), (Key::Alt, 165),
    ]
}

/// A code that Windows gives to none of these keys has no name, and is passed on with the
/// number that it has.
pub proof fn law_other_vk_codes_keep_their_number(code: u32)
    requires
        !('A' as int <= code <= 'Z' as int),
        !('0' as int <= code <= '9' as int),
        !(0x70 <= code < 0x7c),
        code != 8 && code != 9 && code != 13 && !(16 <= code <= 18) && code != 20 && code != 27
            && !(32 <= code <= 40) && code != 45 && code != 46 && code != 91 && code != 92
            && !(160 <= code <= 165) && !(186 <= code <= 192) && !(219 <= code <= 222),
    ensures
        key_of_vk(code) == Key::Other(code),
        vk_of_key(Key::Other(code)) == code,
{
}

} // verus!
