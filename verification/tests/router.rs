use ruiss::arbiter::{Layout, Mode};
use ruiss::clipboard::{handle_remote, local_copy, local_copy_with_id, ClipboardWrite, LocalContent};
use ruiss::file_transfer::names::PathStyle;
use ruiss::file_transfer::receiver::FileReceiver;
use ruiss::file_transfer::sender::FileSender;
use ruiss::keys::Key;
use ruiss::protocol::{MsgKind, Payload};
use ruiss::rounds::Rounds;
use ruiss::router::{Command, Router};
use ruiss::selftest::{test_inject, unsupported_text, Selftest};
use ruiss::settings::{default_true, link_plan, LinkPlan, Settings};

const W: i32 = 1280;
const H: i32 = 800;
const MS: u64 = 1_000_000;

fn router(name: &str) -> Router {
    let settings = Settings {
        name: name.to_string(),
        clipboard_enabled: true,
        ..Settings::default()
    };
    let mut r = Router::new(settings);
    r.link(Some(Layout::PeerRight));
    r
}

fn at(x: i32) -> Payload {
    Payload::MouseMove { x, y: 100, src_w: W as u32, src_h: H as u32 }
}

fn cross(r: &mut Router) -> Vec<Command> {
    assert!(r.on_captured(at(W - 1), W, H, 0).is_empty());
    r.on_captured(at(W - 1), W, H, 150 * MS)
}

#[test]
fn crossing_hides_the_cursor_and_asks_the_peer() {
    let mut a = router("a");
    assert_eq!(
        cross(&mut a),
        vec![
            Command::HideCursor,
            Command::BlockInput(true),
            Command::SinkActive(false),
            Command::Ctrl(Payload::TakeControl { session: 1, x: 0, y: 100, src_w: 1280, src_h: 800 }),
            Command::WarpAway { x: 1, y: 100 },
        ]
    );
}

#[test]
fn control_passes_over_and_comes_back() {
    let mut a = router("a");
    let mut b = router("b");
    cross(&mut a);
    let step = Payload::MouseMoveRelative { dx: 3, dy: 1 };
    assert!(a.on_captured(step.clone(), W, H, 160 * MS).is_empty());
    assert!(a.on_captured(step.clone(), W, H, 170 * MS).is_empty());

    let take = Payload::TakeControl { session: 1, x: 0, y: 100, src_w: 1280, src_h: 800 };
    assert_eq!(
        b.on_message("a", take, 640, 400),
        vec![
            Command::ShowCursor,
            Command::BlockInput(false),
            Command::SinkActive(true),
            Command::Inject(Payload::MouseMove { x: 0, y: 50, src_w: 640, src_h: 400 }),
            Command::Ctrl(Payload::ControlReady { session: 1 }),
        ]
    );
    assert_eq!(a.on_message("b", Payload::ControlReady { session: 9 }, W, H), vec![]);
    let held_back = Payload::PointerMoveRelative { session: 1, seq: 2, dx: 6, dy: 2 };
    assert_eq!(
        a.on_message("b", Payload::ControlReady { session: 1 }, W, H),
        vec![Command::Pointer(held_back.clone())]
    );
    assert_eq!(
        b.on_message("a", held_back.clone(), 640, 400),
        vec![Command::Inject(Payload::MouseMoveRelative { dx: 6, dy: 2 })]
    );
    assert_eq!(b.on_message("a", held_back, 640, 400), vec![]);
    assert_eq!(
        a.on_captured(step, W, H, 200 * MS),
        vec![Command::Pointer(Payload::PointerMoveRelative { session: 1, seq: 3, dx: 3, dy: 1 })]
    );
    let key = Payload::Key { key: Key::A, scan: 0, extended: false, down: true };
    assert_eq!(a.on_captured(key.clone(), W, H, 210 * MS), vec![Command::Event(key.clone())]);
    assert_eq!(b.on_message("a", key.clone(), 640, 400), vec![Command::Inject(key)]);

    let back = b.on_tick(Some((635, 50)), 640, 400, true, 300 * MS);
    assert_eq!(back, vec![]);
    assert_eq!(b.on_tick(Some((635, 50)), 640, 400, true, 1299 * MS), vec![]);
    assert_eq!(
        b.on_tick(Some((635, 50)), 640, 400, true, 1300 * MS),
        vec![
            Command::ShowCursor,
            Command::BlockInput(false),
            Command::SinkActive(false),
            Command::ResetKeyboard,
            Command::Ctrl(Payload::ReleaseControl { session: 1 }),
        ]
    );
    assert_eq!(
        a.on_message("b", Payload::ReleaseControl { session: 1 }, W, H),
        vec![
            Command::ShowCursor,
            Command::BlockInput(false),
            Command::SinkActive(false),
            Command::WarpBack { x: 1278, y: 100 },
        ]
    );
    assert_eq!(a.on_captured(at(400), W, H, 1400 * MS), vec![]);
}

#[test]
fn silent_peer_gives_this_machine_back_to_itself() {
    let mut a = router("a");
    cross(&mut a);
    assert_eq!(a.on_tick(None, W, H, true, 200 * MS), vec![Command::KeepCursorHidden]);
    assert_eq!(a.on_tick(None, W, H, true, 3149 * MS), vec![Command::KeepCursorHidden]);
    assert_eq!(
        a.on_tick(None, W, H, true, 3150 * MS),
        vec![
            Command::ShowCursor,
            Command::BlockInput(false),
            Command::SinkActive(false),
            Command::Ctrl(Payload::ReleaseControl { session: 1 }),
            Command::CancelDrag,
        ]
    );
    assert_eq!(a.on_tick(None, W, H, true, 9000 * MS), vec![]);
}

#[test]
fn lost_connection_frees_both_sides() {
    let free = [Command::ShowCursor, Command::BlockInput(false), Command::SinkActive(false)];
    let mut a = router("a");
    cross(&mut a);
    assert_eq!(a.on_tick(None, W, H, false, 200 * MS), free);
    let mut b = router("b");
    b.on_message("a", Payload::TakeControl { session: 1, x: 0, y: 0, src_w: 1, src_h: 1 }, W, H);
    let commands = b.on_tick(None, W, H, false, 200 * MS);
    assert_eq!(commands[..3], free);
    assert_eq!(commands[3..], [Command::ResetKeyboard]);
    assert_eq!(b.on_tick(None, W, H, false, 300 * MS), vec![]);
}

#[test]
fn machine_in_control_of_itself_plays_nothing() {
    let mut a = router("a");
    let key = Payload::Key { key: Key::A, scan: 0, extended: false, down: true };
    assert_eq!(a.on_message("b", key, W, H), vec![]);
    let frame = Payload::PointerMove { session: 0, seq: 1, x: 1, y: 1, src_w: 9, src_h: 9 };
    assert_eq!(a.on_message("b", frame, W, H), vec![]);
    assert_eq!(a.on_message("b", Payload::Heartbeat { seq: 1 }, W, H), vec![]);
}

#[test]
fn sink_takes_control_back_at_its_own_edge() {
    let mut b = router("b");
    b.on_message("a", Payload::TakeControl { session: 5, x: 0, y: 0, src_w: 1, src_h: 1 }, W, H);
    let mouse = Payload::MouseMove { x: 64, y: 50, src_w: 128, src_h: 80 };
    assert_eq!(
        b.on_message("a", mouse, W, H),
        vec![Command::Inject(Payload::MouseMove { x: 640, y: 500, src_w: 1280, src_h: 800 })]
    );
    let commands = cross(&mut b);
    assert!(commands.contains(&Command::ResetKeyboard));
    assert!(commands.contains(&Command::BlockInput(true)));
    let old = Payload::PointerMoveRelative { session: 5, seq: 9, dx: 1, dy: 1 };
    assert_eq!(b.on_message("a", old, W, H), vec![]);
}

#[test]
fn without_a_link_or_with_crossing_off_nothing_crosses() {
    let mut a = router("a");
    a.link(None);
    assert!(cross(&mut a).is_empty());
    assert_eq!(
        a.on_message("b", Payload::TakeControl { session: 1, x: 0, y: 0, src_w: 1, src_h: 1 }, W, H),
        vec![Command::ShowCursor, Command::BlockInput(false)]
    );
    assert_eq!(a.on_tick(None, W, H, false, 0), vec![]);
    a.unlink();
    assert!(!a.net && a.arbiter.is_none());
    let m = a.ctrl_message(Payload::Heartbeat { seq: 4 });
    assert_eq!((m.kind, m.from.as_str()), (MsgKind::Ctrl, "a"));
    assert_eq!(a.event_message(Payload::ClipboardClear).kind, MsgKind::Event);
}

#[test]
fn own_copies_do_not_come_back() {
    let mut a = router("a");
    let text = Payload::ClipboardText { id: "1".into(), text: "x".into() };
    assert_eq!(a.on_message("a", text.clone(), W, H), vec![]);
    assert_eq!(a.on_message("b", text.clone(), W, H), vec![Command::Clipboard(text.clone())]);
    a.settings.clipboard_enabled = false;
    assert_eq!(a.on_message("b", text, W, H), vec![]);
}

#[test]
fn status_for_the_user() {
    let mut a = router("a");
    let v = a.net_status(true, 5, 6);
    assert_eq!((v.configured, v.connected, v.sent, v.received), (true, true, 5, 6));
    assert_eq!((v.mode.as_str(), v.linked, v.cross_screen, v.capture_ok), ("source", false, true, false));
    cross(&mut a);
    assert!(a.net_status(true, 0, 0).linked);
    a.on_message("b", Payload::TakeControl { session: 1, x: 0, y: 0, src_w: 1, src_h: 1 }, W, H);
    assert_eq!(a.net_status(true, 0, 0).mode, "sink");
    assert_eq!(a.arbiter.as_ref().unwrap().mode, Mode::Sink);
    a.unlink();
    let v = a.net_status(true, 5, 6);
    assert_eq!((v.configured, v.connected, v.sent, v.received), (false, false, 0, 0));
}

#[test]
fn frames_of_a_round_are_accepted_in_order() {
    let mut source = Rounds::new();
    let mut sink = Rounds::new();
    let session = source.begin(0);
    sink.join(session);
    assert_eq!(source.on_ready(session), None);
    let p = Payload::MouseMove { x: 1, y: 2, src_w: 3, src_h: 4 };
    assert_eq!(
        source.on_move(p.clone()),
        Some(Payload::PointerMove { session, seq: 1, x: 1, y: 2, src_w: 3, src_h: 4 })
    );
    assert!(sink.on_frame(session, 1));
    assert!(sink.on_frame(session, 3));
    assert!(!sink.on_frame(session, 2));
    assert!(!sink.on_frame(session, 3));
    assert!(!sink.on_frame(session + 1, 4));
    assert_eq!(sink.current_session(), session);
    sink.end();
    assert!(!sink.on_frame(session, 9));
    let next = source.begin(10);
    assert_eq!(next, session + 1);
    assert_eq!(source.on_move(p), None);
    assert!(!source.is_overdue(10 + 2999 * MS));
    assert!(source.is_overdue(10 + 3000 * MS));
}

fn key(key: Key, down: bool) -> Payload {
    Payload::Key { key, scan: 0, extended: false, down }
}

#[test]
fn self_test_echoes_whole_keys() {
    let mut t = Selftest::new();
    assert!(t.selftest_loopback(key(Key::A, true)).is_empty());
    assert_eq!(t.selftest_loopback(key(Key::A, false)), vec![key(Key::A, true), key(Key::A, false)]);
    assert!(t.selftest_loopback(key(Key::A, false)).is_empty());
    t.selftest_loopback(key(Key::Ctrl, true));
    t.selftest_loopback(key(Key::C, true));
    assert!(t.selftest_loopback(key(Key::C, false)).is_empty());
    assert_eq!(t.selftest_loopback(key(Key::Ctrl, false)).len(), 2);
    let click = |down| Payload::MouseButton { button: 1, down };
    assert!(t.selftest_loopback(click(true)).is_empty());
    assert_eq!(t.selftest_loopback(click(false)), vec![click(true), click(false)]);
    assert!(t.selftest_loopback(at(3)).is_empty());
    let wheel = Payload::MouseWheel { dx: 0, dy: 1 };
    assert_eq!(t.selftest_loopback(wheel.clone()), vec![wheel]);
    t.injected(1);
    t.injected(0);
    let v = t.stats(true);
    assert_eq!((v.captured_mouse, v.captured_keys), (3, 7));
    assert_eq!((v.injected_ok, v.injected_fail, v.enabled), (1, 1, true));
    let mut r = router("a");
    assert!(r.set_self_test(true));
    r.on_captured(key(Key::B, true), W, H, 0);
    assert_eq!(
        r.on_captured(key(Key::B, false), W, H, 0),
        vec![Command::Echo(key(Key::B, true)), Command::Echo(key(Key::B, false))]
    );
}

#[test]
fn text_is_typed_up_to_what_cannot_be_typed() {
    let (strokes, error) = test_inject("a1");
    assert_eq!(error, None);
    assert_eq!(
        strokes,
        vec![
            key(Key::A, true),
            key(Key::A, false),
            key(Key::Digit1, true),
            key(Key::Digit1, false),
        ]
    );
    let (strokes, error) = test_inject("a\nb");
    assert_eq!(strokes.len(), 2);
    assert_eq!(error.unwrap(), "暂不支持字符 '\\n'，请用字母/数字/空格");
    assert_eq!(unsupported_text("'?'"), "暂不支持字符 '?'，请用字母/数字/空格");
}

#[test]
fn settings_become_a_link() {
    let plan = |s: &Settings| match link_plan(s) {
        LinkPlan::Off => None,
        LinkPlan::On { ip, name, layout } => Some((ip, name, layout)),
    };
    let mut s = Settings::default();
    assert!(s.cross_screen_enabled && default_true() && !s.autostart);
    assert_eq!(plan(&s), None);
    s.peer_ip = " 10.0.0.2\n".into();
    assert_eq!(plan(&s), Some(("10.0.0.2".into(), "ruiss".into(), Some(Layout::PeerRight))));
    s.name = " desk ".into();
    s.layout = "left".into();
    assert_eq!(plan(&s), Some(("10.0.0.2".into(), "desk".into(), Some(Layout::PeerLeft))));
    s.cross_screen_enabled = false;
    assert_eq!(plan(&s), Some(("10.0.0.2".into(), "desk".into(), None)));
}

#[test]
fn clipboard_of_the_peer_is_written_here() {
    let mut r = FileReceiver::new(PathStyle::Drive);
    let mut put = |p: Payload| handle_remote(&p, &mut r);
    assert_eq!(
        put(Payload::ClipboardText { id: "1".into(), text: "hi".into() }),
        ClipboardWrite::Text("hi".into())
    );
    assert_eq!(
        put(Payload::ClipboardImage { id: String::new(), png: vec![1, 2] }),
        ClipboardWrite::Image(vec![1, 2])
    );
    assert_eq!(put(Payload::ClipboardFileOffer { id: "2".into() }), ClipboardWrite::Clear);
    assert_eq!(put(Payload::ClipboardClear), ClipboardWrite::Clear);
    assert_eq!(
        put(Payload::ClipboardFiles { id: "3".into(), paths: vec!["p".into()] }),
        ClipboardWrite::Files(vec!["p".into()])
    );
    assert_eq!(
        put(Payload::ClipboardFiles { id: "3".into(), paths: Vec::new() }),
        ClipboardWrite::Nothing
    );
    assert_eq!(put(Payload::Heartbeat { seq: 1 }), ClipboardWrite::Nothing);
}

#[test]
fn copies_on_this_machine_are_shared() {
    let mut r = FileReceiver::new(PathStyle::Drive);
    let mut s: FileSender<&str> = FileSender::new();
    let o = local_copy_with_id(&mut r, &mut s, LocalContent::Text("t".into()), "1".into(), true);
    assert_eq!(o.share, Some(Payload::ClipboardText { id: "1".into(), text: "t".into() }));
    assert!(o.cancel.is_none() && o.files.is_none());
    let o = local_copy_with_id(&mut r, &mut s, LocalContent::Image(vec![7]), "2".into(), true);
    assert_eq!(o.share, Some(Payload::ClipboardImage { id: "2".into(), png: vec![7] }));
    for empty in [
        LocalContent::Empty,
        LocalContent::Text(String::new()),
        LocalContent::Image(Vec::new()),
        LocalContent::Files(Vec::new()),
    ] {
        assert_eq!(local_copy(&mut r, &mut s, empty, true).share, None);
    }
    let o = local_copy(&mut r, &mut s, LocalContent::Files(vec!["/a"]), true);
    let offered = match o.share {
        Some(Payload::ClipboardFileOffer { id }) => id,
        other => panic!("files are offered, not {other:?}"),
    };
    assert_eq!(offered.len(), 36);
    let batch = match o.files {
        Some(Ok(q)) => q,
        _ => panic!("files are sent"),
    };
    assert_eq!(batch.clipboard_id, Some(offered));
    let o = local_copy(&mut r, &mut s, LocalContent::Text("new".into()), true);
    assert_eq!(o.cancel, Some(Payload::FileBatchCancel { id: batch.id }));
    let o = local_copy(&mut r, &mut s, LocalContent::Files(vec!["/a"]), false);
    assert!(matches!(o.files, Some(Err(e)) if e == "对端未连接，无法发送"));
}
