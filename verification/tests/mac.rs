use ruiss::keys::{Key, ModifierState, NativeShortcut};
use ruiss::platform::keyboard::modifier_changes;
use ruiss::platform::mac::codes::{
    cg_to_key, key_to_cg, mac_event_flags, modifier_down, FLAG_CAPS_LOCK, FLAG_COMMAND,
    FLAG_CONTROL, FLAG_OPTION, FLAG_SHIFT,
};
use ruiss::platform::mac::cursor::{
    enforce_cursor_hidden, hide_cursor, show_cursor, warp_cursor_cross, CursorState, ShowPlan,
};
use ruiss::platform::mac::inject::{last_injected_pos, InputInjector, MacPost};
use ruiss::platform::mac::pasteboard::PasteboardWatch;
use ruiss::platform::mac::tap::{
    event_to_payload, on_hid_event, on_session_event, set_local_input_blocked, set_sink_active,
    tracked_move, EventKind, TapEvent, TapState,
};
use ruiss::platform::mac::RUISS_EVENT_MARKER;
use ruiss::protocol::Payload;

fn event(kind: EventKind) -> TapEvent {
    TapEvent {
        kind,
        marker: 0,
        x: 10,
        y: 20,
        dx: 3,
        dy: -4,
        scroll_x: 1,
        scroll_y: -2,
        keycode: 8,
        autorepeat: 0,
        flags: 0,
    }
}

fn own(kind: EventKind) -> TapEvent {
    TapEvent { marker: RUISS_EVENT_MARKER, ..event(kind) }
}

#[test]
fn every_key_code_leads_back() {
    for code in 0..300u16 {
        let key = cg_to_key(code);
        if let Key::Other(n) = key {
            assert_eq!((n, key_to_cg(key)), (code as u32, code));
        } else {
            assert_eq!(cg_to_key(key_to_cg(key)), key);
        }
    }
    assert_eq!(key_to_cg(Key::Super), 55);
    assert_eq!(key_to_cg(Key::Other(0x1_0007)), 7);
}

#[test]
fn flags_tell_the_modifiers() {
    let m = ModifierState { ctrl: true, super_key: true, ..Default::default() };
    assert_eq!(mac_event_flags(m), FLAG_CONTROL + FLAG_COMMAND);
    assert!(modifier_down(Key::Ctrl, mac_event_flags(m)));
    assert!(!modifier_down(Key::Shift, mac_event_flags(m)));
    assert!(modifier_down(Key::CapsLock, FLAG_CAPS_LOCK + 1));
    assert!(modifier_down(Key::Alt, FLAG_OPTION));
    assert!(!modifier_down(Key::Alt, FLAG_SHIFT));
    assert!(modifier_down(Key::A, 0));
}

#[test]
fn events_say_what_they_are() {
    let say = |e| event_to_payload(e, 100, 50);
    assert_eq!(
        say(event(EventKind::RightMouseDragged)),
        Some(Payload::MouseMove { x: 10, y: 20, src_w: 100, src_h: 50 })
    );
    assert_eq!(
        say(event(EventKind::OtherMouseUp)),
        Some(Payload::MouseButton { button: 2, down: false })
    );
    assert_eq!(say(event(EventKind::ScrollWheel)), Some(Payload::MouseWheel { dx: 1, dy: -2 }));
    let key = |down| Payload::Key { key: Key::C, scan: 0, extended: false, down };
    assert_eq!(say(event(EventKind::KeyDown)), Some(key(true)));
    assert_eq!(say(event(EventKind::KeyUp)), Some(key(false)));
    assert_eq!(say(TapEvent { autorepeat: 1, ..event(EventKind::KeyDown) }), None);
    let flags = TapEvent { keycode: 56, flags: FLAG_SHIFT, ..event(EventKind::FlagsChanged) };
    assert_eq!(
        say(flags),
        Some(Payload::Key { key: Key::Shift, scan: 0, extended: false, down: true })
    );
    let wide = TapEvent { scroll_x: 0x1_0000_0005, ..event(EventKind::ScrollWheel) };
    assert_eq!(say(wide), Some(Payload::MouseWheel { dx: 5, dy: -2 }));
    assert_eq!(say(event(EventKind::Other)), None);
    assert_eq!(tracked_move(1, 2, 3, 4), Payload::MouseMove { x: 1, y: 2, src_w: 3, src_h: 4 });
}

#[test]
fn source_sends_its_input_and_keeps_it_from_itself() {
    let mut t = TapState::new();
    set_local_input_blocked(&mut t, true);
    let v = on_hid_event(&t, event(EventKind::MouseMoved), 9, 9);
    assert!(v.drop && v.send == Some(Payload::MouseMoveRelative { dx: 3, dy: -4 }));
    let still = TapEvent { dx: 0, dy: 0, ..event(EventKind::MouseMoved) };
    let v = on_hid_event(&t, still, 9, 9);
    assert!(v.drop && v.send.is_none());
    let v = on_hid_event(&t, event(EventKind::LeftMouseDown), 9, 9);
    assert!(v.drop && v.send.is_some());
    let v = on_session_event(&t, event(EventKind::ScrollWheel), 9, 9);
    assert!(v.drop && v.send.is_some());
    assert!(on_hid_event(&t, own(EventKind::KeyDown), 9, 9).drop);
    assert!(!on_hid_event(&t, own(EventKind::MouseMoved), 9, 9).drop);
    assert!(on_session_event(&t, own(EventKind::KeyDown), 9, 9).drop);
}

#[test]
fn sink_keeps_local_input_away_and_lets_the_peer_through() {
    let mut t = TapState::new();
    assert!(set_sink_active(&mut t, true));
    assert!(!set_sink_active(&mut t, true));
    let v = on_hid_event(&t, event(EventKind::LeftMouseDragged), 9, 9);
    assert!(v.drop && v.track && v.send.is_none());
    let v = on_hid_event(&t, event(EventKind::KeyDown), 9, 9);
    assert!(v.drop && v.send.is_none());
    assert!(on_session_event(&t, event(EventKind::ScrollWheel), 9, 9).drop);
    for kind in [EventKind::MouseMoved, EventKind::LeftMouseDown, EventKind::KeyUp] {
        let v = on_hid_event(&t, own(kind), 9, 9);
        assert!(!v.drop && v.send.is_none());
        assert!(!on_session_event(&t, own(kind), 9, 9).drop);
    }
    assert!(!set_sink_active(&mut t, false));
}

#[test]
fn idle_machine_sends_each_event_once() {
    let t = TapState::new();
    let v = on_hid_event(&t, event(EventKind::MouseMoved), 9, 9);
    assert!(!v.drop && v.send.is_some());
    let v = on_hid_event(&t, event(EventKind::KeyDown), 9, 9);
    assert!(!v.drop && v.send.is_none());
    let v = on_session_event(&t, event(EventKind::KeyDown), 9, 9);
    assert!(!v.drop && v.send.is_some());
    for kind in [EventKind::TapDisabledByTimeout, EventKind::TapDisabledByUserInput] {
        let v = on_hid_event(&t, event(kind), 9, 9);
        assert!(v.enable && v.drop && v.send.is_none());
        assert!(on_session_event(&t, event(kind), 9, 9).enable);
    }
}

const MS: u64 = 1_000_000;

fn click(i: &mut InputInjector, down: bool, now: u64) -> MacPost {
    let (posts, played) = i.inject(&Payload::MouseButton { button: 0, down }, 100, 100, now);
    assert!(played);
    posts[posts.len() - 1]
}

fn clicks(p: MacPost) -> u32 {
    match p {
        MacPost::Mouse { clicks: Some(n), .. } => n,
        _ => panic!("a click"),
    }
}

#[test]
fn second_click_is_a_double_click() {
    let mut i = InputInjector::new();
    i.inject(&Payload::MouseMove { x: 50, y: 50, src_w: 1, src_h: 1 }, 100, 100, 0);
    assert_eq!(clicks(click(&mut i, true, 1000 * MS)), 1);
    assert_eq!(clicks(click(&mut i, false, 1050 * MS)), 1);
    i.inject(&Payload::MouseMoveRelative { dx: 4, dy: -4 }, 100, 100, 0);
    assert_eq!(clicks(click(&mut i, true, 1500 * MS)), 2);
    assert_eq!(clicks(click(&mut i, false, 1550 * MS)), 2);
    assert_eq!(clicks(click(&mut i, true, 2001 * MS)), 1);
    i.inject(&Payload::MouseMoveRelative { dx: 5, dy: 0 }, 100, 100, 0);
    assert_eq!(clicks(click(&mut i, true, 2002 * MS)), 1);
}

#[test]
fn movements_are_drags_while_a_button_is_held() {
    let mut i = InputInjector::new();
    let kind = |i: &mut InputInjector| match i
        .inject(&Payload::MouseMoveRelative { dx: 1000, dy: -1000 }, 100, 50, 0)
        .0[0]
    {
        MacPost::Mouse { kind, x, y, .. } => {
            assert_eq!((x, y), (99, 0));
            kind
        }
        _ => panic!("a movement"),
    };
    assert_eq!(kind(&mut i), EventKind::MouseMoved);
    assert_eq!(last_injected_pos(&i), Some((99, 0)));
    for (button, dragged) in [
        (0, EventKind::LeftMouseDragged),
        (1, EventKind::RightMouseDragged),
        (2, EventKind::OtherMouseDragged),
    ] {
        i.inject(&Payload::MouseButton { button, down: true }, 100, 50, 0);
        assert_eq!(kind(&mut i), dragged);
    }
    assert!(!i.inject(&Payload::MouseButton { button: 3, down: true }, 100, 50, 0).1);
    assert_eq!(kind(&mut i), EventKind::MouseMoved);
}

fn press(i: &mut InputInjector, key: Key, down: bool) -> Vec<MacPost> {
    i.inject(&Payload::Key { key, scan: 1, extended: true, down }, 9, 9, 0).0
}

#[test]
fn shortcut_of_windows_is_played_as_one_of_a_mac() {
    let mut i = InputInjector::new();
    assert_eq!(
        press(&mut i, Key::Ctrl, true),
        vec![MacPost::Modifier { code: 55, down: true, flags: FLAG_COMMAND }]
    );
    assert_eq!(
        press(&mut i, Key::C, true),
        vec![MacPost::Key { code: 8, down: true, flags: FLAG_COMMAND }]
    );
    assert_eq!(press(&mut i, Key::Ctrl, false).len(), 1);
    assert_eq!(
        press(&mut i, Key::C, false),
        vec![
            MacPost::Modifier { code: 55, down: true, flags: FLAG_COMMAND },
            MacPost::Key { code: 8, down: false, flags: FLAG_COMMAND },
            MacPost::Modifier { code: 55, down: false, flags: 0 },
        ]
    );
    let shortcut = NativeShortcut {
        key: Key::V,
        modifiers: ModifierState { super_key: true, ..Default::default() },
    };
    let (posts, played) = i.inject(&Payload::Shortcut { shortcut }, 9, 9, 0);
    assert!(played && posts.len() == 4);
    let (posts, played) = i.inject(&Payload::MouseWheel { dx: 2, dy: -1 }, 9, 9, 0);
    assert!(played);
    assert_eq!(posts, vec![MacPost::Scroll { dx: 200, dy: -100, flags: 0 }]);
    assert_eq!(i.inject(&Payload::Heartbeat { seq: 1 }, 9, 9, 0).1, false);
}

#[test]
fn reset_lets_go_of_everything_on_a_mac() {
    let mut i = InputInjector::new();
    press(&mut i, Key::Shift, true);
    press(&mut i, Key::A, true);
    i.inject(&Payload::MouseButton { button: 1, down: true }, 9, 9, 0);
    let posts = i.reset_keyboard_state();
    assert_eq!(posts[0], MacPost::Modifier { code: 56, down: false, flags: 0 });
    assert!(matches!(posts[1], MacPost::Mouse { kind: EventKind::RightMouseUp, button: 1, .. }));
    assert_eq!(posts[2], MacPost::Key { code: 0, down: false, flags: 0 });
    assert_eq!(
        posts[3..],
        [56u16, 59, 58, 55].map(|code| MacPost::Modifier { code, down: false, flags: 0 })
    );
    assert_eq!(i.reset_keyboard_state().len(), 4);
}

#[test]
fn changes_of_modifiers_release_before_they_press() {
    let from = ModifierState { ctrl: true, alt: true, ..Default::default() };
    let to = ModifierState { shift: true, alt: true, super_key: true, ..Default::default() };
    let steps: Vec<(Key, bool)> =
        modifier_changes(from, to).iter().map(|c| (c.key, c.down)).collect();
    assert_eq!(steps, vec![(Key::Ctrl, false), (Key::Shift, true), (Key::Super, true)]);
    assert_eq!(modifier_changes(from, to)[2].modifiers, to);
    assert!(modifier_changes(to, to).is_empty());
}

#[test]
fn cursor_is_hidden_and_shown_in_turn() {
    let mut c = CursorState::new();
    assert!(hide_cursor(&mut c));
    assert!(!hide_cursor(&mut c));
    assert!(!enforce_cursor_hidden(&c));
    assert_eq!(show_cursor(&mut c), ShowPlan { reassociate: true, show: true });
    assert_eq!(show_cursor(&mut c), ShowPlan { reassociate: false, show: false });
    assert_eq!(warp_cursor_cross(7, 3, 900), (7, 25));
    assert_eq!(warp_cursor_cross(7, 895, 900), (7, 879));
    assert_eq!(warp_cursor_cross(7, 400, 900), (7, 400));
    assert_eq!(warp_cursor_cross(7, 3, 46), (7, 3));
}

#[test]
fn own_writes_are_not_read_back() {
    let mut p = PasteboardWatch::new(4);
    assert!(!p.poll(4));
    assert!(p.poll(5));
    p.wrote();
    assert!(!p.poll(5));
    assert!(!p.poll(6));
    assert!(p.poll(7));
}
