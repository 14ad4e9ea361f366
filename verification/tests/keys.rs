use ruiss::keys::{
    char_to_key, is_modifier_key, map_key, map_modifiers, translate_macos_shortcut_to_windows,
    translate_windows_shortcut_to_mac, Key, ModifierState, ShortcutStroke,
};

#[test]
fn mac_to_windows_command_becomes_ctrl() {
    assert_eq!(map_key(false, Key::Super), Key::Ctrl);
    assert_eq!(map_key(false, Key::Ctrl), Key::Super);
    assert_eq!(map_key(false, Key::Alt), Key::Alt);
}

#[test]
fn win_to_mac_ctrl_becomes_super() {
    assert_eq!(map_key(true, Key::Ctrl), Key::Super);
    assert_eq!(map_key(true, Key::Super), Key::Ctrl);
}

#[test]
fn windows_common_shortcuts_translate_to_mac() {
    let ctrl = ModifierState { ctrl: true, ..Default::default() };
    assert_eq!(
        translate_windows_shortcut_to_mac(ctrl, Key::C),
        ShortcutStroke {
            key: Key::C,
            modifiers: ModifierState { super_key: true, ..Default::default() },
        }
    );

    let alt = ModifierState { alt: true, ..Default::default() };
    assert_eq!(
        translate_windows_shortcut_to_mac(alt, Key::Tab),
        ShortcutStroke {
            key: Key::Tab,
            modifiers: ModifierState { super_key: true, ..Default::default() },
        }
    );
}

#[test]
fn windows_desktop_and_navigation_shortcuts_translate_to_mac() {
    let desktop = ModifierState { ctrl: true, super_key: true, ..Default::default() };
    assert_eq!(
        translate_windows_shortcut_to_mac(desktop, Key::ArrowRight),
        ShortcutStroke {
            key: Key::ArrowRight,
            modifiers: ModifierState { ctrl: true, ..Default::default() },
        }
    );

    let ctrl_shift = ModifierState { ctrl: true, shift: true, ..Default::default() };
    assert_eq!(
        translate_windows_shortcut_to_mac(ctrl_shift, Key::ArrowLeft),
        ShortcutStroke {
            key: Key::ArrowLeft,
            modifiers: ModifierState { ctrl: true, shift: true, ..Default::default() },
        }
    );
    assert_eq!(
        translate_windows_shortcut_to_mac(
            ModifierState { ctrl: true, ..Default::default() },
            Key::ArrowUp,
        ),
        ShortcutStroke {
            key: Key::ArrowUp,
            modifiers: ModifierState { ctrl: true, ..Default::default() },
        }
    );
}

#[test]
fn macos_common_shortcuts_translate_to_windows() {
    let command = ModifierState { super_key: true, ..Default::default() };
    assert_eq!(
        translate_macos_shortcut_to_windows(command, Key::C),
        ShortcutStroke {
            key: Key::C,
            modifiers: ModifierState { ctrl: true, ..Default::default() },
        }
    );
    assert_eq!(
        translate_macos_shortcut_to_windows(command, Key::Tab),
        ShortcutStroke {
            key: Key::Tab,
            modifiers: ModifierState { alt: true, ..Default::default() },
        }
    );
}

#[test]
fn macos_desktop_shortcuts_translate_to_windows() {
    let control = ModifierState { ctrl: true, ..Default::default() };
    assert_eq!(
        translate_macos_shortcut_to_windows(control, Key::ArrowRight),
        ShortcutStroke {
            key: Key::ArrowRight,
            modifiers: ModifierState {
                ctrl: true,
                super_key: true,
                ..Default::default()
            },
        }
    );
    assert_eq!(
        translate_macos_shortcut_to_windows(control, Key::ArrowUp),
        ShortcutStroke {
            key: Key::Tab,
            modifiers: ModifierState { super_key: true, ..Default::default() },
        }
    );
}

#[test]
fn exchange_is_its_own_inverse() {
    for key in [Key::Ctrl, Key::Super, Key::Alt, Key::Shift, Key::A, Key::Other(7)] {
        assert_eq!(map_key(true, map_key(true, key)), key);
    }
    let m = ModifierState { ctrl: true, shift: true, ..Default::default() };
    assert_eq!(map_modifiers(false, map_modifiers(true, m)), m);
    let exchanged = map_modifiers(true, m);
    assert!(exchanged.super_key && exchanged.shift && !exchanged.ctrl && !exchanged.alt);
}

#[test]
fn shortcuts_survive_the_way_there_and_back() {
    let ctrl = ModifierState { ctrl: true, ..Default::default() };
    for key in [Key::C, Key::V, Key::X, Key::Z, Key::A, Key::S] {
        let there = translate_windows_shortcut_to_mac(ctrl, key);
        let back = translate_macos_shortcut_to_windows(there.modifiers, there.key);
        assert_eq!(back, ShortcutStroke { key, modifiers: ctrl });
    }
}

#[test]
fn modifiers_follow_their_keys() {
    let mut m = ModifierState::default();
    assert!(m.set(Key::Ctrl, true));
    assert!(m.set(Key::Shift, true));
    assert!(m.set(Key::Ctrl, false));
    assert!(!m.set(Key::A, true));
    assert_eq!(m, ModifierState { shift: true, ..Default::default() });
    assert!(is_modifier_key(Key::Super));
    assert!(!is_modifier_key(Key::CapsLock));
}

#[test]
fn characters_that_can_be_typed() {
    assert_eq!(char_to_key('a'), Some(Key::A));
    assert_eq!(char_to_key('7'), Some(Key::Digit7));
    assert_eq!(char_to_key(' '), Some(Key::Space));
    assert_eq!(char_to_key('?'), None);
}
