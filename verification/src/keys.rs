//! Keys, and how a key or a shortcut typed on one system is played on the other.
//!
//! Keys travel between the machines as platform-independent names; the
//! platform layer turns them into Windows virtual-key codes or macOS key codes.

use vstd::prelude::*;

verus! {

/// A key. `Other` carries the raw code of a key that has no name here.
#[derive(Debug, Clone, Copy, PartialEq, Eq, Hash, Structural)]
pub enum Key {
    A, B, C, D, E, F, G, H, I, J, K, L, M,
    N, O, P, Q, R, S, T, U, V, W, X, Y, Z,
    Digit0, Digit1, Digit2, Digit3, Digit4,
    Digit5, Digit6, Digit7, Digit8, Digit9,
    Ctrl, Alt, Shift, Super,
    Enter, Space, Backspace, Tab, Esc,
    ArrowUp, ArrowDown, ArrowLeft, ArrowRight,
    F1, F2, F3, F4, F5, F6, F7, F8, F9, F10, F11, F12,
    Delete, Home, End, PageUp, PageDown, Insert, CapsLock,
    Comma, Period, Slash, Semicolon, Quote,
    LBracket, RBracket, Backslash, Minus, Equals, Backtick,
    Other(u32),
}

/// Which modifier keys are held. `super_key` is the Windows key or Command.
#[derive(Debug, Clone, Copy, PartialEq, Eq, Structural)]
pub struct ModifierState {
    pub ctrl: bool,
    pub alt: bool,
    pub shift: bool,
    pub super_key: bool,
}

impl Default for ModifierState {
    /// No modifier is held.
    fn default() -> (m: Self)
        ensures
            m == held(false, false, false, false),
    {
        ModifierState { ctrl: false, alt: false, shift: false, super_key: false }
    }
}

/// The modifier state with exactly the given keys held.
pub open spec fn held(ctrl: bool, alt: bool, shift: bool, super_key: bool) -> ModifierState {
    ModifierState { ctrl, alt, shift, super_key }
}

/// Whether a key is one of the four modifiers.
pub open spec fn modifier_key(key: Key) -> bool {
    key == Key::Ctrl || key == Key::Alt || key == Key::Shift || key == Key::Super
}

/// Whether `key` is a modifier that is held in `m`.
pub open spec fn holds(m: ModifierState, key: Key) -> bool {
    match key {
        Key::Ctrl => m.ctrl,
        Key::Alt => m.alt,
        Key::Shift => m.shift,
        Key::Super => m.super_key,
        _ => false,
    }
}

/// `m` after the modifier `key` went down or up; other keys leave it alone.
pub open spec fn with_key(m: ModifierState, key: Key, down: bool) -> ModifierState {
    match key {
        Key::Ctrl => ModifierState { ctrl: down, ..m },
        Key::Alt => ModifierState { alt: down, ..m },
        Key::Shift => ModifierState { shift: down, ..m },
        Key::Super => ModifierState { super_key: down, ..m },
        _ => m,
    }
}

impl ModifierState {
    /// Records that `key` went down or up. Returns whether it is a modifier;
    /// for any other key nothing changes.
    pub fn set(&mut self, key: Key, down: bool) -> (is_modifier: bool)
        ensures
            is_modifier == modifier_key(key),
            *final(self) == with_key(*old(self), key, down),
    {
        match key {
            Key::Ctrl => {
                self.ctrl = down;
                true
            },
            Key::Alt => {
                self.alt = down;
                true
            },
            Key::Shift => {
                self.shift = down;
                true
            },
            Key::Super => {
                self.super_key = down;
                true
            },
            _ => false,
        }
    }
}

/// Whether a key is one of the four modifiers.
pub fn is_modifier_key(key: Key) -> (r: bool)
    ensures
        r == modifier_key(key),
{
    matches!(key, Key::Ctrl | Key::Alt | Key::Shift | Key::Super)
}

/// A key press together with the modifiers that must be held for it.
#[derive(Debug, Clone, Copy, PartialEq, Eq, Structural)]
pub struct ShortcutStroke {
    pub key: Key,
    pub modifiers: ModifierState,
}

/// A shortcut in the terms of the machine that plays it: its modifiers are
/// used as they are, without any exchange of Ctrl and Command.
#[derive(Debug, Clone, Copy, PartialEq, Eq, Structural)]
pub struct NativeShortcut {
    pub key: Key,
    pub modifiers: ModifierState,
}

/// Ctrl and Command change places; every other key stays.
pub open spec fn exchanged(key: Key) -> Key {
    match key {
        Key::Ctrl => Key::Super,
        Key::Super => Key::Ctrl,
        _ => key,
    }
}

/// Turns a key of the sending machine into the key to inject on the other.
/// The rule is the same in both directions.
pub fn map_key(_target_is_mac: bool, key: Key) -> (r: Key)
    ensures
        r == exchanged(key),
{
    match key {
        Key::Ctrl => Key::Super,
        Key::Super => Key::Ctrl,
        other => other,
    }
}

/// The modifiers with Ctrl and Command exchanged.
pub open spec fn exchanged_modifiers(m: ModifierState) -> ModifierState {
    held(m.super_key, m.alt, m.shift, m.ctrl)
}

/// Turns the modifiers held on the sending machine into those to hold on the
/// other: Ctrl and Command change places, Alt and Shift stay.
pub fn map_modifiers(target_is_mac: bool, source: ModifierState) -> (r: ModifierState)
    ensures
        r == exchanged_modifiers(source),
{
    let mut target = ModifierState::default();
    if source.ctrl {
        target.set(map_key(target_is_mac, Key::Ctrl), true);
    }
    if source.alt {
        target.set(map_key(target_is_mac, Key::Alt), true);
    }
    if source.shift {
        target.set(map_key(target_is_mac, Key::Shift), true);
    }
    if source.super_key {
        target.set(map_key(target_is_mac, Key::Super), true);
    }
    target
}

/// Ctrl is held, without Alt and the Windows key or Command.
pub open spec fn ctrl_only(m: ModifierState) -> bool {
    m.ctrl && !m.alt && !m.super_key
}

/// Alt is held, without Ctrl and the Windows key or Command.
pub open spec fn alt_only(m: ModifierState) -> bool {
    m.alt && !m.ctrl && !m.super_key
}

/// The Windows key or Command is held, without Ctrl and Alt.
pub open spec fn super_only(m: ModifierState) -> bool {
    m.super_key && !m.ctrl && !m.alt
}

/// None of Ctrl, Alt and the Windows key or Command is held.
pub open spec fn none_but_shift(m: ModifierState) -> bool {
    !m.ctrl && !m.alt && !m.super_key
}

/// The stroke of `key` with exactly `modifiers` held.
pub open spec fn stroke(key: Key, modifiers: ModifierState) -> ShortcutStroke {
    ShortcutStroke { key, modifiers }
}

fn make_stroke(key: Key, ctrl: bool, alt: bool, shift: bool, super_key: bool) -> (r: ShortcutStroke)
    ensures
        r == stroke(key, held(ctrl, alt, shift, super_key)),
{
    ShortcutStroke { key, modifiers: ModifierState { ctrl, alt, shift, super_key } }
}

/// What a shortcut typed on a Windows keyboard is on a Mac.
pub open spec fn mac_stroke(m: ModifierState, key: Key) -> ShortcutStroke {
    match key {
        Key::Tab => {
            if alt_only(m) {
                stroke(Key::Tab, held(false, false, m.shift, true))
            } else if ctrl_only(m) {
                stroke(Key::Tab, held(true, false, m.shift, false))
            } else if super_only(m) {
                stroke(Key::ArrowUp, held(true, false, false, false))
            } else {
                stroke(key, exchanged_modifiers(m))
            }
        },
        Key::ArrowLeft => {
            if m.super_key && m.ctrl && !m.alt {
                stroke(Key::ArrowLeft, held(true, false, m.shift, false))
            } else if ctrl_only(m) {
                stroke(Key::ArrowLeft, held(true, false, m.shift, false))
            } else if alt_only(m) {
                stroke(Key::LBracket, held(false, false, false, true))
            } else {
                stroke(key, exchanged_modifiers(m))
            }
        },
        Key::ArrowRight => {
            if m.super_key && m.ctrl && !m.alt {
                stroke(Key::ArrowRight, held(true, false, m.shift, false))
            } else if ctrl_only(m) {
                stroke(Key::ArrowRight, held(true, false, m.shift, false))
            } else if alt_only(m) {
                stroke(Key::RBracket, held(false, false, false, true))
            } else {
                stroke(key, exchanged_modifiers(m))
            }
        },
        Key::F4 => {
            if alt_only(m) {
                stroke(Key::Q, held(false, false, false, true))
            } else {
                stroke(key, exchanged_modifiers(m))
            }
        },
        Key::L => {
            if super_only(m) && !m.shift {
                stroke(Key::Q, held(true, false, false, true))
            } else {
                stroke(key, exchanged_modifiers(m))
            }
        },
        Key::S => {
            if super_only(m) && m.shift {
                stroke(Key::Digit4, held(false, false, true, true))
            } else if super_only(m) && !m.shift {
                stroke(Key::Space, held(false, false, false, true))
            } else {
                stroke(key, exchanged_modifiers(m))
            }
        },
        Key::D => {
            if super_only(m) && !m.shift {
                stroke(Key::F3, held(false, false, false, true))
            } else {
                stroke(key, exchanged_modifiers(m))
            }
        },
        Key::E => {
            if super_only(m) && !m.shift {
                stroke(Key::Space, held(false, true, false, true))
            } else {
                stroke(key, exchanged_modifiers(m))
            }
        },
        Key::Space => {
            if super_only(m) {
                stroke(Key::Space, held(true, false, m.shift, false))
            } else {
                stroke(key, exchanged_modifiers(m))
            }
        },
        Key::R => {
            if super_only(m) && !m.shift {
                stroke(Key::Space, held(false, false, false, true))
            } else {
                stroke(key, exchanged_modifiers(m))
            }
        },
        Key::Esc => {
            if ctrl_only(m) && m.shift {
                stroke(Key::Esc, held(false, true, false, true))
            } else {
                stroke(key, exchanged_modifiers(m))
            }
        },
        Key::ArrowUp => {
            if ctrl_only(m) {
                stroke(Key::ArrowUp, held(true, false, m.shift, false))
            } else {
                stroke(key, exchanged_modifiers(m))
            }
        },
        Key::ArrowDown => {
            if ctrl_only(m) {
                stroke(Key::ArrowDown, held(true, false, m.shift, false))
            } else {
                stroke(key, exchanged_modifiers(m))
            }
        },
        Key::Backspace => {
            if ctrl_only(m) {
                stroke(Key::Backspace, held(false, true, m.shift, false))
            } else {
                stroke(key, exchanged_modifiers(m))
            }
        },
        Key::Delete => {
            if ctrl_only(m) {
                stroke(Key::Delete, held(false, true, m.shift, false))
            } else {
                stroke(key, exchanged_modifiers(m))
            }
        },
        Key::Home => {
            if ctrl_only(m) {
                stroke(Key::ArrowUp, held(false, false, m.shift, true))
            } else if none_but_shift(m) {
                stroke(Key::ArrowLeft, held(false, false, m.shift, true))
            } else {
                stroke(key, exchanged_modifiers(m))
            }
        },
        Key::End => {
            if ctrl_only(m) {
                stroke(Key::ArrowDown, held(false, false, m.shift, true))
            } else if none_but_shift(m) {
                stroke(Key::ArrowRight, held(false, false, m.shift, true))
            } else {
                stroke(key, exchanged_modifiers(m))
            }
        },
        _ => stroke(key, exchanged_modifiers(m)),
    }
}

/// Plays a shortcut typed on Windows on a Mac: the shortcuts whose meaning
/// differs between the systems become their Mac counterparts, all others have
/// Ctrl and Command exchanged.
pub fn translate_windows_shortcut_to_mac(source: ModifierState, key: Key) -> (r: ShortcutStroke)
    ensures
        r == mac_stroke(source, key),
{
    let shift = source.shift;
    match key {
        // Alt+Tab becomes Command+Tab.
        Key::Tab if source.alt && !source.ctrl && !source.super_key => make_stroke(
            key,
            false,
            false,
            shift,
            true,
        ),
        // Ctrl+Tab stays Control+Tab.
        Key::Tab if source.ctrl && !source.alt && !source.super_key => make_stroke(
            key,
            true,
            false,
            shift,
            false,
        ),
        // Win+Ctrl+Left/Right, the next desktop, becomes Control+Left/Right.
        Key::ArrowLeft if source.super_key && source.ctrl && !source.alt => make_stroke(
            key,
            true,
            false,
            shift,
            false,
        ),
        Key::ArrowRight if source.super_key && source.ctrl && !source.alt => make_stroke(
            key,
            true,
            false,
            shift,
            false,
        ),
        // Win+Tab becomes Control+Up, Mission Control.
        Key::Tab if source.super_key && !source.ctrl && !source.alt => make_stroke(
            Key::ArrowUp,
            true,
            false,
            false,
            false,
        ),
        // Alt+F4 becomes Command+Q.
        Key::F4 if source.alt && !source.ctrl && !source.super_key => make_stroke(
            Key::Q,
            false,
            false,
            false,
            true,
        ),
        // Win+L becomes Command+Control+Q: lock the screen.
        Key::L if source.super_key && !source.ctrl && !source.alt && !source.shift => make_stroke(
            Key::Q,
            true,
            false,
            false,
            true,
        ),
        // Win+Shift+S becomes Command+Shift+4: a screenshot of an area.
        Key::S if source.super_key && !source.ctrl && !source.alt && source.shift => make_stroke(
            Key::Digit4,
            false,
            false,
            true,
            true,
        ),
        // Win+D becomes Command+F3: show the desktop.
        Key::D if source.super_key && !source.ctrl && !source.alt && !source.shift => make_stroke(
            Key::F3,
            false,
            false,
            false,
            true,
        ),
        // Win+E becomes Command+Option+Space: a Finder window.
        Key::E if source.super_key && !source.ctrl && !source.alt && !source.shift => make_stroke(
            Key::Space,
            false,
            true,
            false,
            true,
        ),
        // Win+Space becomes Control+Space: the next input method.
        Key::Space if source.super_key && !source.ctrl && !source.alt => make_stroke(
            key,
            true,
            false,
            shift,
            false,
        ),
        // Win+R becomes Command+Space: Spotlight.
        Key::R if source.super_key && !source.ctrl && !source.alt && !source.shift => make_stroke(
            Key::Space,
            false,
            false,
            false,
            true,
        ),
        // Win+S becomes Command+Space: search.
        Key::S if source.super_key && !source.ctrl && !source.alt && !source.shift => make_stroke(
            Key::Space,
            false,
            false,
            false,
            true,
        ),
        // Ctrl+Shift+Esc becomes Command+Option+Esc: force quit.
        Key::Esc if source.ctrl && !source.alt && !source.super_key && source.shift => make_stroke(
            key,
            false,
            true,
            false,
            true,
        ),
        // Ctrl with an arrow stays Control with that arrow.
        Key::ArrowLeft if source.ctrl && !source.alt && !source.super_key => make_stroke(
            key,
            true,
            false,
            shift,
            false,
        ),
        Key::ArrowRight if source.ctrl && !source.alt && !source.super_key => make_stroke(
            key,
            true,
            false,
            shift,
            false,
        ),
        Key::ArrowUp if source.ctrl && !source.alt && !source.super_key => make_stroke(
            key,
            true,
            false,
            shift,
            false,
        ),
        Key::ArrowDown if source.ctrl && !source.alt && !source.super_key => make_stroke(
            key,
            true,
            false,
            shift,
            false,
        ),
        // Ctrl+Backspace/Delete becomes Option: delete a word.
        Key::Backspace if source.ctrl && !source.alt && !source.super_key => make_stroke(
            key,
            false,
            true,
            shift,
            false,
        ),
        Key::Delete if source.ctrl && !source.alt && !source.super_key => make_stroke(
            key,
            false,
            true,
            shift,
            false,
        ),
        // Ctrl+Home/End becomes Command+Up/Down: the ends of the document.
        Key::Home if source.ctrl && !source.alt && !source.super_key => make_stroke(
            Key::ArrowUp,
            false,
            false,
            shift,
            true,
        ),
        Key::End if source.ctrl && !source.alt && !source.super_key => make_stroke(
            Key::ArrowDown,
            false,
            false,
            shift,
            true,
        ),
        // Home/End becomes Command+Left/Right: the ends of the line.
        Key::Home if !source.ctrl && !source.alt && !source.super_key => make_stroke(
            Key::ArrowLeft,
            false,
            false,
            shift,
            true,
        ),
        Key::End if !source.ctrl && !source.alt && !source.super_key => make_stroke(
            Key::ArrowRight,
            false,
            false,
            shift,
            true,
        ),
        // Alt+Left/Right becomes Command+[ and Command+]: back and forward.
        Key::ArrowLeft if source.alt && !source.ctrl && !source.super_key => make_stroke(
            Key::LBracket,
            false,
            false,
            false,
            true,
        ),
        Key::ArrowRight if source.alt && !source.ctrl && !source.super_key => make_stroke(
            Key::RBracket,
            false,
            false,
            false,
            true,
        ),
        _ => ShortcutStroke { key, modifiers: map_modifiers(true, source) },
    }
}

/// What a shortcut typed on a Mac keyboard is on Windows.
pub open spec fn windows_stroke(m: ModifierState, key: Key) -> ShortcutStroke {
    match key {
        Key::Tab => {
            if super_only(m) {
                stroke(Key::Tab, held(false, true, m.shift, false))
            } else if ctrl_only(m) {
                stroke(Key::Tab, held(true, false, m.shift, false))
            } else {
                stroke(key, exchanged_modifiers(m))
            }
        },
        Key::ArrowLeft => {
            if ctrl_only(m) {
                stroke(Key::ArrowLeft, held(true, false, m.shift, true))
            } else if alt_only(m) {
                stroke(Key::ArrowLeft, held(true, false, m.shift, false))
            } else if super_only(m) {
                stroke(Key::Home, held(false, false, m.shift, false))
            } else {
                stroke(key, exchanged_modifiers(m))
            }
        },
        Key::ArrowRight => {
            if ctrl_only(m) {
                stroke(Key::ArrowRight, held(true, false, m.shift, true))
            } else if alt_only(m) {
                stroke(Key::ArrowRight, held(true, false, m.shift, false))
            } else if super_only(m) {
                stroke(Key::End, held(false, false, m.shift, false))
            } else {
                stroke(key, exchanged_modifiers(m))
            }
        },
        Key::ArrowUp => {
            if ctrl_only(m) {
                stroke(Key::Tab, held(false, false, false, true))
            } else if alt_only(m) {
                stroke(Key::ArrowUp, held(true, false, m.shift, false))
            } else if super_only(m) {
                stroke(Key::Home, held(true, false, m.shift, false))
            } else {
                stroke(key, exchanged_modifiers(m))
            }
        },
        Key::Q => {
            if super_only(m) {
                stroke(Key::F4, held(false, true, false, false))
            } else if m.super_key && m.ctrl && !m.alt && !m.shift {
                stroke(Key::L, held(false, false, false, true))
            } else {
                stroke(key, exchanged_modifiers(m))
            }
        },
        Key::Digit4 => {
            if super_only(m) && m.shift {
                stroke(Key::S, held(false, false, true, true))
            } else {
                stroke(key, exchanged_modifiers(m))
            }
        },
        Key::Digit5 => {
            if super_only(m) && m.shift {
                stroke(Key::S, held(false, false, true, true))
            } else {
                stroke(key, exchanged_modifiers(m))
            }
        },
        Key::F3 => {
            if super_only(m) && !m.shift {
                stroke(Key::D, held(false, false, false, true))
            } else {
                stroke(key, exchanged_modifiers(m))
            }
        },
        Key::Space => {
            if m.super_key && m.alt && !m.ctrl && !m.shift {
                stroke(Key::E, held(false, false, false, true))
            } else if ctrl_only(m) {
                stroke(Key::Space, held(false, false, m.shift, true))
            } else if super_only(m) {
                stroke(Key::S, held(false, false, false, true))
            } else {
                stroke(key, exchanged_modifiers(m))
            }
        },
        Key::ArrowDown => {
            if alt_only(m) {
                stroke(Key::ArrowDown, held(true, false, m.shift, false))
            } else if super_only(m) {
                stroke(Key::End, held(true, false, m.shift, false))
            } else {
                stroke(key, exchanged_modifiers(m))
            }
        },
        Key::Backspace => {
            if alt_only(m) {
                stroke(Key::Backspace, held(true, false, m.shift, false))
            } else {
                stroke(key, exchanged_modifiers(m))
            }
        },
        Key::Delete => {
            if alt_only(m) {
                stroke(Key::Delete, held(true, false, m.shift, false))
            } else {
                stroke(key, exchanged_modifiers(m))
            }
        },
        Key::LBracket => {
            if super_only(m) {
                stroke(Key::ArrowLeft, held(false, true, false, false))
            } else {
                stroke(key, exchanged_modifiers(m))
            }
        },
        Key::RBracket => {
            if super_only(m) {
                stroke(Key::ArrowRight, held(false, true, false, false))
            } else {
                stroke(key, exchanged_modifiers(m))
            }
        },
        Key::Esc => {
            if m.super_key && m.alt && !m.ctrl {
                stroke(Key::Esc, held(true, false, true, false))
            } else {
                stroke(key, exchanged_modifiers(m))
            }
        },
        _ => stroke(key, exchanged_modifiers(m)),
    }
}

/// Plays a shortcut typed on a Mac on Windows: the shortcuts whose meaning
/// differs between the systems become their Windows counterparts, all others
/// have Command and Ctrl exchanged.
pub fn translate_macos_shortcut_to_windows(source: ModifierState, key: Key) -> (r: ShortcutStroke)
    ensures
        r == windows_stroke(source, key),
{
    let shift = source.shift;
    match key {
        // Command+Tab becomes Alt+Tab.
        Key::Tab if source.super_key && !source.ctrl && !source.alt => make_stroke(
            key,
            false,
            true,
            shift,
            false,
        ),
        // Control+Tab stays Ctrl+Tab.
        Key::Tab if source.ctrl && !source.alt && !source.super_key => make_stroke(
            key,
            true,
            false,
            shift,
            false,
        ),
        // Control+Left/Right, the next desktop, becomes Win+Ctrl+Left/Right.
        Key::ArrowLeft if source.ctrl && !source.alt && !source.super_key => make_stroke(
            key,
            true,
            false,
            shift,
            true,
        ),
        Key::ArrowRight if source.ctrl && !source.alt && !source.super_key => make_stroke(
            key,
            true,
            false,
            shift,
            true,
        ),
        // Control+Up becomes Win+Tab: the task view.
        Key::ArrowUp if source.ctrl && !source.alt && !source.super_key => make_stroke(
            Key::Tab,
            false,
            false,
            false,
            true,
        ),
        // Command+Q becomes Alt+F4.
        Key::Q if source.super_key && !source.ctrl && !source.alt => make_stroke(
            Key::F4,
            false,
            true,
            false,
            false,
        ),
        // Command+Control+Q becomes Win+L: lock the screen.
        Key::Q if source.super_key && source.ctrl && !source.alt && !source.shift => make_stroke(
            Key::L,
            false,
            false,
            false,
            true,
        ),
        // Command+Shift+4/5 becomes Win+Shift+S: a screenshot.
        Key::Digit4 if source.super_key && !source.ctrl && !source.alt && source.shift => make_stroke(
            Key::S,
            false,
            false,
            true,
            true,
        ),
        Key::Digit5 if source.super_key && !source.ctrl && !source.alt && source.shift => make_stroke(
            Key::S,
            false,
            false,
            true,
            true,
        ),
        // Command+F3 becomes Win+D: show the desktop.
        Key::F3 if source.super_key && !source.ctrl && !source.alt && !source.shift => make_stroke(
            Key::D,
            false,
            false,
            false,
            true,
        ),
        // Command+Option+Space becomes Win+E: the file explorer.
        Key::Space if source.super_key && source.alt && !source.ctrl && !source.shift => make_stroke(
            Key::E,
            false,
            false,
            false,
            true,
        ),
        // Control+Space becomes Win+Space: the next input method.
        Key::Space if source.ctrl && !source.alt && !source.super_key => make_stroke(
            key,
            false,
            false,
            shift,
            true,
        ),
        // Command+Space becomes Win+S: search.
        Key::Space if source.super_key && !source.ctrl && !source.alt => make_stroke(
            Key::S,
            false,
            false,
            false,
            true,
        ),
        // Option with an arrow, Backspace or Delete becomes Ctrl: by word.
        Key::ArrowLeft if source.alt && !source.ctrl && !source.super_key => make_stroke(
            key,
            true,
            false,
            shift,
            false,
        ),
        Key::ArrowRight if source.alt && !source.ctrl && !source.super_key => make_stroke(
            key,
            true,
            false,
            shift,
            false,
        ),
        Key::ArrowUp if source.alt && !source.ctrl && !source.super_key => make_stroke(
            key,
            true,
            false,
            shift,
            false,
        ),
        Key::ArrowDown if source.alt && !source.ctrl && !source.super_key => make_stroke(
            key,
            true,
            false,
            shift,
            false,
        ),
        Key::Backspace if source.alt && !source.ctrl && !source.super_key => make_stroke(
            key,
            true,
            false,
            shift,
            false,
        ),
        Key::Delete if source.alt && !source.ctrl && !source.super_key => make_stroke(
            key,
            true,
            false,
            shift,
            false,
        ),
        // Command+Up/Down becomes Ctrl+Home/End.
        Key::ArrowUp if source.super_key && !source.ctrl && !source.alt => make_stroke(
            Key::Home,
            true,
            false,
            shift,
            false,
        ),
        Key::ArrowDown if source.super_key && !source.ctrl && !source.alt => make_stroke(
            Key::End,
            true,
            false,
            shift,
            false,
        ),
        // Command+Left/Right becomes Home/End.
        Key::ArrowLeft if source.super_key && !source.ctrl && !source.alt => make_stroke(
            Key::Home,
            false,
            false,
            shift,
            false,
        ),
        Key::ArrowRight if source.super_key && !source.ctrl && !source.alt => make_stroke(
            Key::End,
            false,
            false,
            shift,
            false,
        ),
        // Command+[ and Command+] become Alt+Left/Right: back and forward.
        Key::LBracket if source.super_key && !source.ctrl && !source.alt => make_stroke(
            Key::ArrowLeft,
            false,
            true,
            false,
            false,
        ),
        Key::RBracket if source.super_key && !source.ctrl && !source.alt => make_stroke(
            Key::ArrowRight,
            false,
            true,
            false,
            false,
        ),
        // Command+Option+Esc becomes Ctrl+Shift+Esc: the task manager.
        Key::Esc if source.super_key && source.alt && !source.ctrl => make_stroke(
            key,
            true,
            false,
            true,
            false,
        ),
        _ => ShortcutStroke { key, modifiers: map_modifiers(false, source) },
    }
}

/// The key that types a character: a lower-case letter, a digit or a space.
pub open spec fn key_of_char(c: char) -> Option<Key> {
    match c {
        'a' => Some(Key::A),
        'b' => Some(Key::B),
        'c' => Some(Key::C),
        'd' => Some(Key::D),
        'e' => Some(Key::E),
        'f' => Some(Key::F),
        'g' => Some(Key::G),
        'h' => Some(Key::H),
        'i' => Some(Key::I),
        'j' => Some(Key::J),
        'k' => Some(Key::K),
        'l' => Some(Key::L),
        'm' => Some(Key::M),
        'n' => Some(Key::N),
        'o' => Some(Key::O),
        'p' => Some(Key::P),
        'q' => Some(Key::Q),
        'r' => Some(Key::R),
        's' => Some(Key::S),
        't' => Some(Key::T),
        'u' => Some(Key::U),
        'v' => Some(Key::V),
        'w' => Some(Key::W),
        'x' => Some(Key::X),
        'y' => Some(Key::Y),
        'z' => Some(Key::Z),
        '0' => Some(Key::Digit0),
        '1' => Some(Key::Digit1),
        '2' => Some(Key::Digit2),
        '3' => Some(Key::Digit3),
        '4' => Some(Key::Digit4),
        '5' => Some(Key::Digit5),
        '6' => Some(Key::Digit6),
        '7' => Some(Key::Digit7),
        '8' => Some(Key::Digit8),
        '9' => Some(Key::Digit9),
        ' ' => Some(Key::Space),
        _ => None,
    }
}

/// The key that types a character, for the injection test. Only lower-case
/// letters, digits and the space are known.
pub fn char_to_key(c: char) -> (key: Option<Key>)
    ensures
        key == key_of_char(c),
{
    match c {
        'a' => Some(Key::A),
        'b' => Some(Key::B),
        'c' => Some(Key::C),
        'd' => Some(Key::D),
        'e' => Some(Key::E),
        'f' => Some(Key::F),
        'g' => Some(Key::G),
        'h' => Some(Key::H),
        'i' => Some(Key::I),
        'j' => Some(Key::J),
        'k' => Some(Key::K),
        'l' => Some(Key::L),
        'm' => Some(Key::M),
        'n' => Some(Key::N),
        'o' => Some(Key::O),
        'p' => Some(Key::P),
        'q' => Some(Key::Q),
        'r' => Some(Key::R),
        's' => Some(Key::S),
        't' => Some(Key::T),
        'u' => Some(Key::U),
        'v' => Some(Key::V),
        'w' => Some(Key::W),
        'x' => Some(Key::X),
        'y' => Some(Key::Y),
        'z' => Some(Key::Z),
        '0' => Some(Key::Digit0),
        '1' => Some(Key::Digit1),
        '2' => Some(Key::Digit2),
        '3' => Some(Key::Digit3),
        '4' => Some(Key::Digit4),
        '5' => Some(Key::Digit5),
        '6' => Some(Key::Digit6),
        '7' => Some(Key::Digit7),
        '8' => Some(Key::Digit8),
        '9' => Some(Key::Digit9),
        ' ' => Some(Key::Space),
        _ => None,
    }
}

/// Whether some shortcut with this key means something different on the two
/// systems.
pub open spec fn translated_key(key: Key) -> bool {
    match key {
        Key::Tab | Key::ArrowLeft | Key::ArrowRight | Key::F4 | Key::L
        | Key::S | Key::D | Key::E | Key::Space | Key::R
        | Key::Esc | Key::ArrowUp | Key::ArrowDown | Key::Backspace | Key::Delete
        | Key::Home | Key::End | Key::Q | Key::Digit4 | Key::Digit5
        | Key::F3 | Key::LBracket | Key::RBracket => true,
        _ => false,
    }
}

/// Exchanging Ctrl and Command twice gives back every key and every set of
/// modifiers: what crosses to the peer and back is what was typed.
pub proof fn law_exchange_is_its_own_inverse(key: Key, m: ModifierState)
    ensures
        exchanged(exchanged(key)) == key,
        exchanged_modifiers(exchanged_modifiers(m)) == m,
{
}

/// The key map and the modifier map agree: a modifier is held on the target
/// exactly if the key it comes from is held on the source.
pub proof fn law_modifiers_follow_keys(m: ModifierState, key: Key)
    ensures
        holds(exchanged_modifiers(m), exchanged(key)) == holds(m, key),
{
}

/// Alt and Shift are never exchanged.
pub proof fn law_alt_and_shift_stay(m: ModifierState)
    ensures
        exchanged(Key::Alt) == Key::Alt,
        exchanged(Key::Shift) == Key::Shift,
        exchanged_modifiers(m).alt == m.alt,
        exchanged_modifiers(m).shift == m.shift,
{
}

/// A shortcut that means the same on both systems keeps its key, has only Ctrl
/// and Command exchanged, and comes back unchanged from the other system.
pub proof fn law_common_shortcuts_round_trip(m: ModifierState, key: Key)
    requires
        !translated_key(key),
    ensures
        mac_stroke(m, key) == stroke(key, exchanged_modifiers(m)),
        windows_stroke(m, key) == stroke(key, exchanged_modifiers(m)),
        windows_stroke(mac_stroke(m, key).modifiers, mac_stroke(m, key).key) == stroke(key, m),
        mac_stroke(windows_stroke(m, key).modifiers, windows_stroke(m, key).key) == stroke(key, m),
{
}

/// The Windows shortcuts whose Mac counterpart stands for nothing else.
pub open spec fn paired_shortcut(m: ModifierState, key: Key) -> bool {
    match key {
        Key::Tab => alt_only(m) || ctrl_only(m) || (super_only(m) && !m.shift),
        Key::ArrowLeft | Key::ArrowRight => m.super_key && m.ctrl && !m.alt || alt_only(m)
            && !m.shift,
        Key::F4 => alt_only(m) && !m.shift,
        Key::L | Key::D | Key::E => super_only(m) && !m.shift,
        Key::S | Key::Space => super_only(m),
        Key::Esc => ctrl_only(m) && m.shift,
        Key::Backspace | Key::Delete => ctrl_only(m),
        Key::Home | Key::End => ctrl_only(m) || none_but_shift(m),
        _ => false,
    }
}

/// A shortcut that has a Mac counterpart of its own comes back as it was when
/// it is taken from Windows to the Mac and back.
pub proof fn law_paired_shortcuts_round_trip(m: ModifierState, key: Key)
    requires
        paired_shortcut(m, key),
    ensures
        windows_stroke(mac_stroke(m, key).modifiers, mac_stroke(m, key).key) == stroke(key, m),
{
}

/// Whether a stroke is of this key, with exactly these modifiers held.
pub open spec fn plays(
    s: ShortcutStroke,
    key: Key,
    ctrl: bool,
    alt: bool,
    shift: bool,
    super_key: bool,
) -> bool {
    &&& s.key == key
    &&& s.modifiers.ctrl == ctrl
    &&& s.modifiers.alt == alt
    &&& s.modifiers.shift == shift
    &&& s.modifiers.super_key == super_key
}

/// The shortcuts of a Windows keyboard that have a counterpart of their own on a Mac,
/// each with the key and the modifiers that are played for it; every other combination
/// keeps its key, and only Ctrl and the Windows key change places.
pub proof fn law_windows_shortcuts_on_a_mac(m: ModifierState, key: Key)
    ensures
        key == Key::Tab && !m.ctrl && m.alt && !m.super_key ==> plays(
            mac_stroke(m, key),
            Key::Tab,
            false, false, m.shift, true,
        ),
        key == Key::Tab && m.ctrl && !m.alt && !m.super_key ==> plays(
            mac_stroke(m, key),
            Key::Tab,
            true, false, m.shift, false,
        ),
        key == Key::Tab && !m.ctrl && !m.alt && m.super_key ==> plays(
            mac_stroke(m, key),
            Key::ArrowUp,
            true, false, false, false,
        ),
        key == Key::ArrowLeft && m.ctrl && !m.alt && m.super_key ==> plays(
            mac_stroke(m, key),
            Key::ArrowLeft,
            true, false, m.shift, false,
        ),
        key == Key::ArrowRight && m.ctrl && !m.alt && m.super_key ==> plays(
            mac_stroke(m, key),
            Key::ArrowRight,
            true, false, m.shift, false,
        ),
        key == Key::F4 && !m.ctrl && m.alt && !m.super_key ==> plays(
            mac_stroke(m, key),
            Key::Q,
            false, false, false, true,
        ),
        key == Key::L && !m.ctrl && !m.alt && m.super_key && !m.shift ==> plays(
            mac_stroke(m, key),
            Key::Q,
            true, false, false, true,
        ),
        key == Key::S && !m.ctrl && !m.alt && m.super_key && m.shift ==> plays(
            mac_stroke(m, key),
            Key::Digit4,
            false, false, true, true,
        ),
        key == Key::D && !m.ctrl && !m.alt && m.super_key && !m.shift ==> plays(
            mac_stroke(m, key),
            Key::F3,
            false, false, false, true,
        ),
        key == Key::E && !m.ctrl && !m.alt && m.super_key && !m.shift ==> plays(
            mac_stroke(m, key),
            Key::Space,
            false, true, false, true,
        ),
        key == Key::Space && !m.ctrl && !m.alt && m.super_key ==> plays(
            mac_stroke(m, key),
            Key::Space,
            true, false, m.shift, false,
        ),
        key == Key::R && !m.ctrl && !m.alt && m.super_key && !m.shift ==> plays(
            mac_stroke(m, key),
            Key::Space,
            false, false, false, true,
        ),
        key == Key::S && !m.ctrl && !m.alt && m.super_key && !m.shift ==> plays(
            mac_stroke(m, key),
            Key::Space,
            false, false, false, true,
        ),
        key == Key::Esc && m.ctrl && !m.alt && !m.super_key && m.shift ==> plays(
            mac_stroke(m, key),
            Key::Esc,
            false, true, false, true,
        ),
        key == Key::ArrowLeft && m.ctrl && !m.alt && !m.super_key ==> plays(
            mac_stroke(m, key),
            Key::ArrowLeft,
            true, false, m.shift, false,
        ),
        key == Key::ArrowRight && m.ctrl && !m.alt && !m.super_key ==> plays(
            mac_stroke(m, key),
            Key::ArrowRight,
            true, false, m.shift, false,
        ),
        key == Key::ArrowUp && m.ctrl && !m.alt && !m.super_key ==> plays(
            mac_stroke(m, key),
            Key::ArrowUp,
            true, false, m.shift, false,
        ),
        key == Key::ArrowDown && m.ctrl && !m.alt && !m.super_key ==> plays(
            mac_stroke(m, key),
            Key::ArrowDown,
            true, false, m.shift, false,
        ),
        key == Key::Backspace && m.ctrl && !m.alt && !m.super_key ==> plays(
            mac_stroke(m, key),
            Key::Backspace,
            false, true, m.shift, false,
        ),
        key == Key::Delete && m.ctrl && !m.alt && !m.super_key ==> plays(
            mac_stroke(m, key),
            Key::Delete,
            false, true, m.shift, false,
        ),
        key == Key::Home && m.ctrl && !m.alt && !m.super_key ==> plays(
            mac_stroke(m, key),
            Key::ArrowUp,
            false, false, m.shift, true,
        ),
        key == Key::End && m.ctrl && !m.alt && !m.super_key ==> plays(
            mac_stroke(m, key),
            Key::ArrowDown,
            false, false, m.shift, true,
        ),
        key == Key::Home && !m.ctrl && !m.alt && !m.super_key ==> plays(
            mac_stroke(m, key),
            Key::ArrowLeft,
            false, false, m.shift, true,
        ),
        key == Key::End && !m.ctrl && !m.alt && !m.super_key ==> plays(
            mac_stroke(m, key),
            Key::ArrowRight,
            false, false, m.shift, true,
        ),
        key == Key::ArrowLeft && !m.ctrl && m.alt && !m.super_key ==> plays(
            mac_stroke(m, key),
            Key::LBracket,
            false, false, false, true,
        ),
        key == Key::ArrowRight && !m.ctrl && m.alt && !m.super_key ==> plays(
            mac_stroke(m, key),
            Key::RBracket,
            false, false, false, true,
        ),
        !(key == Key::Tab && !m.ctrl && m.alt && !m.super_key
            || key == Key::Tab && m.ctrl && !m.alt && !m.super_key
            || key == Key::Tab && !m.ctrl && !m.alt && m.super_key
            || key == Key::ArrowLeft && m.ctrl && !m.alt && m.super_key
            || key == Key::ArrowRight && m.ctrl && !m.alt && m.super_key
            || key == Key::F4 && !m.ctrl && m.alt && !m.super_key
            || key == Key::L && !m.ctrl && !m.alt && m.super_key && !m.shift
            || key == Key::S && !m.ctrl && !m.alt && m.super_key && m.shift
            || key == Key::D && !m.ctrl && !m.alt && m.super_key && !m.shift
            || key == Key::E && !m.ctrl && !m.alt && m.super_key && !m.shift
            || key == Key::Space && !m.ctrl && !m.alt && m.super_key
            || key == Key::R && !m.ctrl && !m.alt && m.super_key && !m.shift
            || key == Key::S && !m.ctrl && !m.alt && m.super_key && !m.shift
            || key == Key::Esc && m.ctrl && !m.alt && !m.super_key && m.shift
            || key == Key::ArrowLeft && m.ctrl && !m.alt && !m.super_key
            || key == Key::ArrowRight && m.ctrl && !m.alt && !m.super_key
            || key == Key::ArrowUp && m.ctrl && !m.alt && !m.super_key
            || key == Key::ArrowDown && m.ctrl && !m.alt && !m.super_key
            || key == Key::Backspace && m.ctrl && !m.alt && !m.super_key
            || key == Key::Delete && m.ctrl && !m.alt && !m.super_key
            || key == Key::Home && m.ctrl && !m.alt && !m.super_key
            || key == Key::End && m.ctrl && !m.alt && !m.super_key
            || key == Key::Home && !m.ctrl && !m.alt && !m.super_key
            || key == Key::End && !m.ctrl && !m.alt && !m.super_key
            || key == Key::ArrowLeft && !m.ctrl && m.alt && !m.super_key
            || key == Key::ArrowRight && !m.ctrl && m.alt && !m.super_key) ==> plays(mac_stroke(m, key), key, m.super_key, m.alt, m.shift, m.ctrl),
{
}

/// The shortcuts of a Mac keyboard that have a counterpart of their own on Windows, each
/// with the key and the modifiers that are played for it; every other combination keeps
/// its key, and only Control and Command change places.
pub proof fn law_mac_shortcuts_on_windows(m: ModifierState, key: Key)
    ensures
        key == Key::Tab && !m.ctrl && !m.alt && m.super_key ==> plays(
            windows_stroke(m, key),
            Key::Tab,
            false, true, m.shift, false,
        ),
        key == Key::Tab && m.ctrl && !m.alt && !m.super_key ==> plays(
            windows_stroke(m, key),
            Key::Tab,
            true, false, m.shift, false,
        ),
        key == Key::ArrowLeft && m.ctrl && !m.alt && !m.super_key ==> plays(
            windows_stroke(m, key),
            Key::ArrowLeft,
            true, false, m.shift, true,
        ),
        key == Key::ArrowRight && m.ctrl && !m.alt && !m.super_key ==> plays(
            windows_stroke(m, key),
            Key::ArrowRight,
            true, false, m.shift, true,
        ),
        key == Key::ArrowUp && m.ctrl && !m.alt && !m.super_key ==> plays(
            windows_stroke(m, key),
            Key::Tab,
            false, false, false, true,
        ),
        key == Key::Q && !m.ctrl && !m.alt && m.super_key ==> plays(
            windows_stroke(m, key),
            Key::F4,
            false, true, false, false,
        ),
        key == Key::Q && m.ctrl && !m.alt && m.super_key && !m.shift ==> plays(
            windows_stroke(m, key),
            Key::L,
            false, false, false, true,
        ),
        key == Key::Digit4 && !m.ctrl && !m.alt && m.super_key && m.shift ==> plays(
            windows_stroke(m, key),
            Key::S,
            false, false, true, true,
        ),
        key == Key::Digit5 && !m.ctrl && !m.alt && m.super_key && m.shift ==> plays(
            windows_stroke(m, key),
            Key::S,
            false, false, true, true,
        ),
        key == Key::F3 && !m.ctrl && !m.alt && m.super_key && !m.shift ==> plays(
            windows_stroke(m, key),
            Key::D,
            false, false, false, true,
        ),
        key == Key::Space && !m.ctrl && m.alt && m.super_key && !m.shift ==> plays(
            windows_stroke(m, key),
            Key::E,
            false, false, false, true,
        ),
        key == Key::Space && m.ctrl && !m.alt && !m.super_key ==> plays(
            windows_stroke(m, key),
            Key::Space,
            false, false, m.shift, true,
        ),
        key == Key::Space && !m.ctrl && !m.alt && m.super_key ==> plays(
            windows_stroke(m, key),
            Key::S,
            false, false, false, true,
        ),
        key == Key::ArrowLeft && !m.ctrl && m.alt && !m.super_key ==> plays(
            windows_stroke(m, key),
            Key::ArrowLeft,
            true, false, m.shift, false,
        ),
        key == Key::ArrowRight && !m.ctrl && m.alt && !m.super_key ==> plays(
            windows_stroke(m, key),
            Key::ArrowRight,
            true, false, m.shift, false,
        ),
        key == Key::ArrowUp && !m.ctrl && m.alt && !m.super_key ==> plays(
            windows_stroke(m, key),
            Key::ArrowUp,
            true, false, m.shift, false,
        ),
        key == Key::ArrowDown && !m.ctrl && m.alt && !m.super_key ==> plays(
            windows_stroke(m, key),
            Key::ArrowDown,
            true, false, m.shift, false,
        ),
        key == Key::Backspace && !m.ctrl && m.alt && !m.super_key ==> plays(
            windows_stroke(m, key),
            Key::Backspace,
            true, false, m.shift, false,
        ),
        key == Key::Delete && !m.ctrl && m.alt && !m.super_key ==> plays(
            windows_stroke(m, key),
            Key::Delete,
            true, false, m.shift, false,
        ),
        key == Key::ArrowUp && !m.ctrl && !m.alt && m.super_key ==> plays(
            windows_stroke(m, key),
            Key::Home,
            true, false, m.shift, false,
        ),
        key == Key::ArrowDown && !m.ctrl && !m.alt && m.super_key ==> plays(
            windows_stroke(m, key),
            Key::End,
            true, false, m.shift, false,
        ),
        key == Key::ArrowLeft && !m.ctrl && !m.alt && m.super_key ==> plays(
            windows_stroke(m, key),
            Key::Home,
            false, false, m.shift, false,
        ),
        key == Key::ArrowRight && !m.ctrl && !m.alt && m.super_key ==> plays(
            windows_stroke(m, key),
            Key::End,
            false, false, m.shift, false,
        ),
        key == Key::LBracket && !m.ctrl && !m.alt && m.super_key ==> plays(
            windows_stroke(m, key),
            Key::ArrowLeft,
            false, true, false, false,
        ),
        key == Key::RBracket && !m.ctrl && !m.alt && m.super_key ==> plays(
            windows_stroke(m, key),
            Key::ArrowRight,
            false, true, false, false,
        ),
        key == Key::Esc && !m.ctrl && m.alt && m.super_key ==> plays(
            windows_stroke(m, key),
            Key::Esc,
            true, false, true, false,
        ),
        !(key == Key::Tab && !m.ctrl && !m.alt && m.super_key
            || key == Key::Tab && m.ctrl && !m.alt && !m.super_key
            || key == Key::ArrowLeft && m.ctrl && !m.alt && !m.super_key
            || key == Key::ArrowRight && m.ctrl && !m.alt && !m.super_key
            || key == Key::ArrowUp && m.ctrl && !m.alt && !m.super_key
            || key == Key::Q && !m.ctrl && !m.alt && m.super_key
            || key == Key::Q && m.ctrl && !m.alt && m.super_key && !m.shift
            || key == Key::Digit4 && !m.ctrl && !m.alt && m.super_key && m.shift
            || key == Key::Digit5 && !m.ctrl && !m.alt && m.super_key && m.shift
            || key == Key::F3 && !m.ctrl && !m.alt && m.super_key && !m.shift
            || key == Key::Space && !m.ctrl && m.alt && m.super_key && !m.shift
            || key == Key::Space && m.ctrl && !m.alt && !m.super_key
            || key == Key::Space && !m.ctrl && !m.alt && m.super_key
            || key == Key::ArrowLeft && !m.ctrl && m.alt && !m.super_key
            || key == Key::ArrowRight && !m.ctrl && m.alt && !m.super_key
            || key == Key::ArrowUp && !m.ctrl && m.alt && !m.super_key
            || key == Key::ArrowDown && !m.ctrl && m.alt && !m.super_key
            || key == Key::Backspace && !m.ctrl && m.alt && !m.super_key
            || key == Key::Delete && !m.ctrl && m.alt && !m.super_key
            || key == Key::ArrowUp && !m.ctrl && !m.alt && m.super_key
            || key == Key::ArrowDown && !m.ctrl && !m.alt && m.super_key
            || key == Key::ArrowLeft && !m.ctrl && !m.alt && m.super_key
            || key == Key::ArrowRight && !m.ctrl && !m.alt && m.super_key
            || key == Key::LBracket && !m.ctrl && !m.alt && m.super_key
            || key == Key::RBracket && !m.ctrl && !m.alt && m.super_key
            || key == Key::Esc && !m.ctrl && m.alt && m.super_key) ==> plays(windows_stroke(m, key), key, m.super_key, m.alt, m.shift, m.ctrl),
{
}

/// Moving and deleting by word keeps its key between the systems: Option with an arrow,
/// Backspace or Delete is Ctrl with the same key on Windows, and Shift stays as it is.
pub proof fn law_words_keep_their_direction(shift: bool, key: Key)
    requires
        key == Key::ArrowLeft || key == Key::ArrowRight || key == Key::ArrowUp || key
            == Key::ArrowDown || key == Key::Backspace || key == Key::Delete,
    ensures
        ({
            let option = ModifierState { ctrl: false, alt: true, shift, super_key: false };
            let s = windows_stroke(option, key);
            s.key == key && s.modifiers == (ModifierState {
                ctrl: true,
                alt: false,
                shift,
                super_key: false,
            })
        }),
{
}

/// Exactly Ctrl and the Windows key or Command change places, as keys and as modifiers.
pub proof fn law_ctrl_and_command_change_places(key: Key, m: ModifierState)
    ensures
        exchanged(Key::Ctrl) == Key::Super,
        exchanged(Key::Super) == Key::Ctrl,
        key != Key::Ctrl && key != Key::Super ==> exchanged(key) == key,
        exchanged_modifiers(m) == (ModifierState {
            ctrl: m.super_key,
            alt: m.alt,
            shift: m.shift,
            super_key: m.ctrl,
        }),
{
}

/// A modifier is held from when it goes down to when it goes up, and no other key
/// touches it.
pub proof fn law_modifiers_are_held_one_by_one(m: ModifierState, key: Key, down: bool, other: Key)
    ensures
        modifier_key(key) <==> key == Key::Ctrl || key == Key::Alt || key == Key::Shift || key
            == Key::Super,
        modifier_key(key) ==> holds(with_key(m, key, down), key) == down,
        other != key ==> holds(with_key(m, key, down), other) == holds(m, other),
        !modifier_key(key) ==> with_key(m, key, down) == m,
        holds(m, Key::Ctrl) == m.ctrl,
        holds(m, Key::Alt) == m.alt,
        holds(m, Key::Shift) == m.shift,
        holds(m, Key::Super) == m.super_key,
{
}

/// The letters in their order.
pub open spec fn letters() -> Seq<Key> {
    seq![
        Key::A, Key::B, Key::C, Key::D, Key::E, Key::F, Key::G, Key::H, Key::I, Key::J, Key::K,
        Key::L, Key::M, Key::N, Key::O, Key::P, Key::Q, Key::R, Key::S, Key::T, Key::U, Key::V,
        Key::W, Key::X, Key::Y, Key::Z,
    ]
}

/// The digits in their order.
pub open spec fn digits() -> Seq<Key> {
    seq![
        Key::Digit0, Key::Digit1, Key::Digit2, Key::Digit3, Key::Digit4, Key::Digit5, Key::Digit6,
        Key::Digit7, Key::Digit8, Key::Digit9,
    ]
}

/// The function keys in their order.
pub open spec fn function_keys() -> Seq<Key> {
    seq![
        Key::F1, Key::F2, Key::F3, Key::F4, Key::F5, Key::F6, Key::F7, Key::F8, Key::F9, Key::F10,
        Key::F11, Key::F12,
    ]
}

/// A lower-case letter is typed with its letter, a digit with its digit, a space with
/// the space bar, and nothing else is known.
pub proof fn law_characters_are_typed_with_their_keys(c: char)
    ensures
        'a' <= c <= 'z' ==> key_of_char(c) == Some(letters()[c as int - 'a' as int]),
        '0' <= c <= '9' ==> key_of_char(c) == Some(digits()[c as int - '0' as int]),
        c == ' ' ==> key_of_char(c) == Some(Key::Space),
        !('a' <= c <= 'z') && !('0' <= c <= '9') && c != ' ' ==> key_of_char(c) is None,
{
}

} // verus!
