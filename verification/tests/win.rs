use ruiss::keys::{Key, ModifierState, NativeShortcut};
use ruiss::platform::win::codes::{key_to_vk, vk_to_key};
use ruiss::platform::win::cursor::{
    enforce_cursor_hidden, hide_cursor, show_cursor, warp_cursor_cross, CursorState,
};
use ruiss::platform::win::drag::{
    cancel_remote_file_drag, complete_remote_file_drag, edge_probe_effect, probe_positions,
    query_continue_drag, supported, take_drag_paths, DragFormat, DragProbe, DragProgress, DragWait,
    RemoteDragReady, RemoteDrags, DROPEFFECT_COPY, DROPEFFECT_NONE,
};
use ruiss::platform::win::hook::{
    keyboard_to_payload, mouse_to_payload, on_keyboard, on_mouse, on_raw_mouse, raw_relative_delta,
    set_local_input_blocked, set_sink_active, should_capture_keyboard_event, wheel_delta,
    xbutton_id_from_mouse_data, HookState, KeyEvent, MouseEvent, MOUSE_MOVE_ABSOLUTE, WM_KEYDOWN,
    WM_KEYUP, WM_LBUTTONDOWN, WM_MBUTTONUP, WM_MOUSEHWHEEL, WM_MOUSEMOVE, WM_MOUSEWHEEL,
    WM_RBUTTONDOWN, WM_SYSKEYDOWN, WM_XBUTTONDOWN,
};
use ruiss::platform::win::inject::{
    last_injected_pos, mouse_button_inputs, mouse_move_inputs, mouse_wheel_inputs, InputInjector,
    WinInput, KEYEVENTF_EXTENDEDKEY, KEYEVENTF_KEYUP, MOUSEEVENTF_HWHEEL, MOUSEEVENTF_LEFTDOWN,
    MOUSEEVENTF_LEFTUP, MOUSEEVENTF_MOVE, MOUSEEVENTF_WHEEL, MOVE_ABSOLUTE,
};
use ruiss::platform::RemoteFileDragEvent;
use ruiss::protocol::Payload;

#[test]
fn raw_relative_mouse_preserves_signed_delta() {
    assert_eq!(raw_relative_delta(0, 7, -4), Some((7, -4)));
}

#[test]
fn raw_relative_mouse_drops_zero_and_absolute_packets() {
    assert_eq!(raw_relative_delta(0, 0, 0), None);
    assert_eq!(
        raw_relative_delta(MOUSE_MOVE_ABSOLUTE, 32_768, 32_768),
        None
    );
}

#[test]
fn low_level_hook_side_specific_modifiers_are_normalized() {
    assert_eq!(vk_to_key(0xA0), Key::Shift);
    assert_eq!(vk_to_key(0xA1), Key::Shift);
    assert_eq!(vk_to_key(0xA2), Key::Ctrl);
    assert_eq!(vk_to_key(0xA3), Key::Ctrl);
    assert_eq!(vk_to_key(0xA4), Key::Alt);
    assert_eq!(vk_to_key(0xA5), Key::Alt);
}

#[test]
fn injected_keyboard_is_captured_only_while_windows_controls_remote() {
    assert!(should_capture_keyboard_event(true, false, false, false));
    assert!(!should_capture_keyboard_event(true, true, false, false));
    assert!(should_capture_keyboard_event(true, true, true, false));
    assert!(!should_capture_keyboard_event(true, true, true, true));
    assert!(should_capture_keyboard_event(false, true, false, false));
}

#[test]
fn xbuttons_map_to_back_and_forward_ids() {
    assert_eq!(xbutton_id_from_mouse_data(1 << 16), Some(3));
    assert_eq!(xbutton_id_from_mouse_data(2 << 16), Some(4));
    assert_eq!(xbutton_id_from_mouse_data(0), None);
}

#[test]
fn edge_probe_advertises_copy_only_for_captured_files() {
    assert_eq!(edge_probe_effect(true), DROPEFFECT_COPY);
    assert_eq!(edge_probe_effect(false), DROPEFFECT_NONE);
}

fn mouse(message: u32, data: u32) -> MouseEvent {
    MouseEvent { message, x: 10, y: 20, data, injected: false }
}

fn key(message: u32, vk: u32) -> KeyEvent {
    KeyEvent { message, vk, scan: 0x1_0022, extended: true, injected: false }
}

#[test]
fn every_key_has_a_code_that_leads_back() {
    for vk in 0..0x200u32 {
        let k = vk_to_key(vk);
        if let Key::Other(n) = k {
            assert_eq!((n, key_to_vk(k)), (vk, vk));
        } else {
            assert_eq!(vk_to_key(key_to_vk(k)), k);
        }
    }
    assert_eq!(key_to_vk(Key::Ctrl), 0x11);
    assert_eq!(key_to_vk(Key::Backtick), 0xC0);
}

#[test]
fn mouse_messages_become_events() {
    let mut h = HookState::new(true);
    let say = |h: &mut HookState, m| mouse_to_payload(h, m, 1920, 1080);
    assert_eq!(
        say(&mut h, mouse(WM_MOUSEMOVE, 0)),
        Some(Payload::MouseMove { x: 10, y: 20, src_w: 1920, src_h: 1080 })
    );
    assert_eq!(
        say(&mut h, mouse(WM_RBUTTONDOWN, 0)),
        Some(Payload::MouseButton { button: 1, down: true })
    );
    assert_eq!(
        say(&mut h, mouse(WM_MBUTTONUP, 0)),
        Some(Payload::MouseButton { button: 2, down: false })
    );
    assert_eq!(
        say(&mut h, mouse(WM_XBUTTONDOWN, 2 << 16)),
        Some(Payload::MouseButton { button: 4, down: true })
    );
    assert_eq!(say(&mut h, mouse(WM_XBUTTONDOWN, 3 << 16)), None);
    assert_eq!(
        say(&mut h, mouse(WM_MOUSEHWHEEL, 240 << 16)),
        Some(Payload::MouseWheel { dx: 2, dy: 0 })
    );
    assert_eq!(say(&mut h, mouse(0x0203, 0)), None);
}

#[test]
fn small_turns_of_the_wheel_add_up() {
    let mut left = 0;
    let turn = |n: i16| (n as u16 as u32) << 16;
    assert_eq!(wheel_delta(turn(120), &mut left), 1);
    assert_eq!(wheel_delta(turn(-240), &mut left), -2);
    assert_eq!(left, 0);
    assert_eq!(wheel_delta(turn(30), &mut left), 0);
    assert_eq!(wheel_delta(turn(30), &mut left), 0);
    assert_eq!(wheel_delta(turn(70), &mut left), 1);
    assert_eq!(left, 10);
    assert_eq!(wheel_delta(turn(-130), &mut left), -1);
    assert_eq!(left, 0);
    let mut h = HookState::new(true);
    assert_eq!(mouse_to_payload(&mut h, mouse(WM_MOUSEWHEEL, turn(60)), 9, 9), None);
    assert_eq!(
        mouse_to_payload(&mut h, mouse(WM_MOUSEWHEEL, turn(61)), 9, 9),
        Some(Payload::MouseWheel { dx: 0, dy: 1 })
    );
    assert_eq!(h.wheel_v, 1);
}

#[test]
fn local_input_is_kept_away_while_either_side_is_in_control() {
    let mut h = HookState::new(true);
    assert!(!on_mouse(&mut h, mouse(WM_LBUTTONDOWN, 0), 9, 9).swallow);
    assert!(!on_keyboard(&h, key(WM_KEYDOWN, 0x41)).swallow);
    assert!(set_local_input_blocked(&mut h, true));
    let v = on_mouse(&mut h, mouse(WM_LBUTTONDOWN, 0), 9, 9);
    assert!(v.swallow && v.send == Some(Payload::MouseButton { button: 0, down: true }));
    let v = on_mouse(&mut h, mouse(WM_MOUSEMOVE, 0), 9, 9);
    assert!(!v.swallow && v.send.is_none());
    assert!(on_keyboard(&h, key(WM_KEYUP, 0x41)).swallow);
    assert!(!set_local_input_blocked(&mut h, false));
    set_sink_active(&mut h, true);
    let v = on_mouse(&mut h, mouse(WM_MOUSEMOVE, 0), 9, 9);
    assert!(v.swallow && v.send.is_some());
    assert!(on_mouse(&mut h, mouse(WM_MOUSEWHEEL, 120 << 16), 9, 9).swallow);
    assert!(on_keyboard(&h, key(WM_SYSKEYDOWN, 0x41)).swallow);
}

#[test]
fn what_the_peer_plays_is_not_captured_again() {
    let mut h = HookState::new(true);
    set_sink_active(&mut h, true);
    let played = |m: MouseEvent| MouseEvent { injected: true, ..m };
    let v = on_mouse(&mut h, played(mouse(WM_LBUTTONDOWN, 0)), 9, 9);
    assert!(v.send.is_none() && !v.swallow);
    let v = on_mouse(&mut h, played(mouse(WM_MOUSEWHEEL, 120 << 16)), 9, 9);
    assert!(v.send.is_some() && !v.swallow);
    let v = on_keyboard(&h, KeyEvent { injected: true, ..key(WM_KEYDOWN, 0x41) });
    assert!(v.send.is_none() && !v.swallow);
    let mut h = HookState::new(true);
    set_local_input_blocked(&mut h, true);
    let v = on_mouse(&mut h, played(mouse(WM_XBUTTONDOWN, 1 << 16)), 9, 9);
    assert!(v.swallow && v.send == Some(Payload::MouseButton { button: 3, down: true }));
}

#[test]
fn raw_movements_are_sent_only_by_the_source() {
    let mut h = HookState::new(true);
    assert_eq!(on_raw_mouse(&mut h, 0, 3, 4), None);
    set_local_input_blocked(&mut h, true);
    assert_eq!(on_raw_mouse(&mut h, 1, 3, 4), None);
    assert!(!h.raw_move_seen);
    assert_eq!(on_raw_mouse(&mut h, 0, 3, 4), Some(Payload::MouseMoveRelative { dx: 3, dy: 4 }));
    assert!(h.raw_move_seen);
    set_sink_active(&mut h, true);
    assert_eq!(on_raw_mouse(&mut h, 0, 3, 4), None);
}

#[test]
fn keyboard_messages_become_events() {
    assert_eq!(
        keyboard_to_payload(key(WM_SYSKEYDOWN, 0xA4)),
        Some(Payload::Key { key: Key::Alt, scan: 0x22, extended: true, down: true })
    );
    assert_eq!(keyboard_to_payload(key(0x0102, 0x41)), None);
}

#[test]
fn positions_are_rounded_to_the_nearest() {
    let at = |x: i32, w: i32| match mouse_move_inputs(x, 0, w, 1)[0] {
        WinInput::Mouse { dx, .. } => dx,
        _ => unreachable!(),
    };
    for w in [1, 2, 3, 1366, 1920, 3840] {
        let mut last = -1;
        for x in -2..w + 2 {
            let expected = (x.clamp(0, w - 1) as f64 * 65535.0 / w as f64).round() as i32;
            assert_eq!(at(x, w), expected);
            assert!(expected >= last && expected <= 65535);
            last = expected;
        }
    }
    assert_eq!(
        mouse_move_inputs(960, 540, 1920, 1080),
        vec![WinInput::Mouse { dx: 32768, dy: 32768, data: 0, flags: MOVE_ABSOLUTE }]
    );
    assert!(mouse_move_inputs(1, 1, 0, 1080).is_empty());
}

#[test]
fn played_notches_are_read_back() {
    for clicks in [-273, -2, -1, 1, 2, 100, 273] {
        match mouse_wheel_inputs(clicks, 0)[0] {
            WinInput::Mouse { data, flags, .. } => {
                assert_eq!(flags, MOUSEEVENTF_HWHEEL);
                let mut left = 7;
                assert_eq!(wheel_delta(data, &mut left), clicks);
                assert_eq!(left, 7);
            }
            _ => unreachable!(),
        }
    }
    let both = mouse_wheel_inputs(1, -1);
    assert_eq!(
        both[0],
        WinInput::Mouse { dx: 0, dy: 0, data: 0xFF88_0000, flags: MOUSEEVENTF_WHEEL }
    );
    assert_eq!(both.len(), 2);
    assert!(mouse_wheel_inputs(0, 0).is_empty());
}

fn down(vk: u16) -> WinInput {
    WinInput::Key { vk, scan: 0, flags: 0 }
}

fn up(vk: u16) -> WinInput {
    WinInput::Key { vk, scan: 0, flags: KEYEVENTF_KEYUP }
}

fn press(key: Key, down: bool) -> Payload {
    Payload::Key { key, scan: 0x2E, extended: true, down }
}

#[test]
fn shortcut_of_a_mac_is_played_as_one_of_windows() {
    let mut i = InputInjector::new();
    assert_eq!(i.inject(&press(Key::Super, true), 9, 9), vec![down(0x11)]);
    assert_eq!(
        i.inject(&press(Key::C, true), 9, 9),
        vec![WinInput::Key { vk: 0x43, scan: 0x2E, flags: KEYEVENTF_EXTENDEDKEY }]
    );
    assert_eq!(i.inject(&press(Key::Super, false), 9, 9), vec![up(0x11)]);
    assert_eq!(
        i.inject(&press(Key::C, false), 9, 9),
        vec![
            down(0x11),
            WinInput::Key { vk: 0x43, scan: 0x2E, flags: KEYEVENTF_EXTENDEDKEY + KEYEVENTF_KEYUP },
            up(0x11),
        ]
    );
}

#[test]
fn command_tab_becomes_alt_tab() {
    let mut i = InputInjector::new();
    i.inject(&press(Key::Super, true), 9, 9);
    let tab = i.inject(&press(Key::Tab, true), 9, 9);
    assert_eq!(tab[..2], [up(0x11), down(0x12)]);
    assert_eq!(tab.len(), 3);
}

#[test]
fn native_shortcut_is_played_whole() {
    let mut i = InputInjector::new();
    let shortcut = NativeShortcut {
        key: Key::V,
        modifiers: ModifierState { ctrl: true, ..Default::default() },
    };
    assert_eq!(
        i.inject(&Payload::Shortcut { shortcut }, 9, 9),
        vec![down(0x11), down(0x56), up(0x56), up(0x11)]
    );
}

#[test]
fn pointer_events_are_played() {
    let mut i = InputInjector::new();
    assert_eq!(last_injected_pos(&i), None);
    i.inject(&Payload::MouseMove { x: 5, y: 6, src_w: 9, src_h: 9 }, 100, 100);
    assert_eq!(last_injected_pos(&i), Some((5, 6)));
    assert_eq!(
        i.inject(&Payload::MouseMoveRelative { dx: 2, dy: -1 }, 100, 100),
        vec![WinInput::Mouse { dx: 2, dy: -1, data: 0, flags: MOUSEEVENTF_MOVE }]
    );
    i.moved(1, Some((7, 5)));
    assert_eq!(last_injected_pos(&i), Some((7, 5)));
    i.moved(0, Some((1, 1)));
    i.moved(1, None);
    assert_eq!(last_injected_pos(&i), Some((7, 5)));
    assert!(i.inject(&Payload::MouseMoveRelative { dx: 0, dy: 0 }, 9, 9).is_empty());
    assert!(i.inject(&Payload::Heartbeat { seq: 1 }, 9, 9).is_empty());
    assert!(mouse_button_inputs(3, true).is_empty());
}

#[test]
fn reset_lets_go_of_everything() {
    let mut i = InputInjector::new();
    i.inject(&press(Key::A, true), 9, 9);
    let click = i.inject(&Payload::MouseButton { button: 0, down: true }, 9, 9);
    assert_eq!(
        click,
        vec![WinInput::Mouse { dx: 0, dy: 0, data: 0, flags: MOUSEEVENTF_LEFTDOWN }]
    );
    assert_eq!(
        i.reset_keyboard_state(),
        vec![
            up(0x41),
            WinInput::Mouse { dx: 0, dy: 0, data: 0, flags: MOUSEEVENTF_LEFTUP },
            up(0x11),
            up(0x12),
            up(0x10),
            up(0x5B),
        ]
    );
    assert_eq!(i.reset_keyboard_state().len(), 4);
}

#[test]
fn hidden_cursor_comes_back_once() {
    let mut c = CursorState::new();
    assert!(show_cursor(&mut c));
    assert!(!show_cursor(&mut c));
    assert_eq!(hide_cursor(&mut c), vec![32512, 32513, 32514, 32649, 32650]);
    assert!(hide_cursor(&mut c).is_empty());
    assert!(!enforce_cursor_hidden(&c));
    assert!(show_cursor(&mut c));
    assert_eq!(warp_cursor_cross(3, 4), None);
}

fn files() -> Vec<String> {
    vec!["C:/a.txt".to_string()]
}

#[test]
fn drag_at_the_edge_takes_its_files_along() {
    let sec = 1_000_000_000;
    let mut p = DragProbe::new();
    assert_eq!(p.drag_enter(Vec::new(), 0), DROPEFFECT_NONE);
    assert!(take_drag_paths(&mut p, 0).is_empty());
    assert_eq!(p.drag_enter(files(), 0), DROPEFFECT_COPY);
    assert_eq!(p.drag_over(10 * sec), DROPEFFECT_COPY);
    assert_eq!(take_drag_paths(&mut p, 25 * sec), files());
    p.drag_leave();
    assert_eq!(p.on_drop(), DROPEFFECT_COPY);
    assert_eq!(p.on_drop(), DROPEFFECT_NONE);
    assert_eq!(p.drag_over(11 * sec), DROPEFFECT_NONE);
    p.drag_enter(files(), 0);
    assert!(take_drag_paths(&mut p, 15 * sec + 1).is_empty());
    p.drag_enter(files(), 0);
    p.drag_leave();
    assert!(take_drag_paths(&mut p, 0).is_empty());
    assert_eq!(probe_positions(1920), (0, 1918));
    assert_eq!(probe_positions(i32::MIN), (0, i32::MIN));
}

#[test]
fn drags_are_had_as_lists_of_files_only() {
    assert!(supported(DragFormat { format: 15, aspect: 1, tymed: 1 }));
    assert!(supported(DragFormat { format: 15, aspect: 1, tymed: 5 }));
    assert!(!supported(DragFormat { format: 15, aspect: 1, tymed: 4 }));
    assert!(!supported(DragFormat { format: 13, aspect: 1, tymed: 1 }));
    assert!(!supported(DragFormat { format: 15, aspect: 2, tymed: 1 }));
    assert_eq!(query_continue_drag(true, 1), DragProgress::Cancel);
    assert_eq!(query_continue_drag(false, 2), DragProgress::Drop);
    assert_eq!(query_continue_drag(false, 3), DragProgress::Go);
}

#[test]
fn files_of_a_drag_are_asked_for_once() {
    let mut d = RemoteDragReady::new();
    let asks = |d: &mut RemoteDragReady| {
        matches!(
            d.wait_for_paths("d1"),
            DragWait::Wait(Some(RemoteFileDragEvent::DataRequested(id))) if id == "d1"
        )
    };
    assert!(asks(&mut d));
    assert!(matches!(d.wait_for_paths("d1"), DragWait::Wait(None)));
    let mut drags = RemoteDrags::new();
    drags.insert("d1", d);
    assert!(!complete_remote_file_drag(&mut drags, "d2", &files(), None));
    assert!(complete_remote_file_drag(&mut drags, "d1", &files(), None));
    let mut d = drags.remove("d1").unwrap();
    assert!(matches!(d.wait_for_paths("d1"), DragWait::Ready(f) if f == files()));
    drags.insert("d1", RemoteDragReady::new());
    assert!(complete_remote_file_drag(&mut drags, "d1", &Vec::new(), None));
    let mut d = drags.remove("d1").unwrap();
    assert!(asks(&mut d));
    assert!(matches!(d.wait_for_paths("d1"), DragWait::Failed(e) if e == "remote drag has no files"));
    drags.insert("d1", RemoteDragReady::new());
    assert!(cancel_remote_file_drag(&mut drags, "d1"));
    let mut d = drags.remove("d1").unwrap();
    // A drag that was given up before it was dropped is asked for all the same.
    assert!(asks(&mut d));
    assert!(matches!(d.wait_for_paths("d1"), DragWait::Failed(e) if e == "drag cancelled"));
}
