use ruiss::arbiter::{Action, Arbiter, Layout, Mode};
use ruiss::keys::Key;
use ruiss::protocol::Payload;

const W: i32 = 1280;
const H: i32 = 800;
const EDGE_X: i32 = W - 1; // the exit edge when the peer is on the right
const ENTRY_X: i32 = 0; // where the peer is entered then

fn t(ms: u64) -> u64 {
    ms * 1_000_000
}

#[test]
fn take_control_after_dwell() {
    let mut a = Arbiter::new(Layout::PeerRight);
    assert!(a.on_cursor(EDGE_X, 100, W, H, t(0)).is_empty());
    assert!(a.on_cursor(EDGE_X, 100, W, H, t(100)).is_empty());
    let acts = a.on_cursor(EDGE_X, 100, W, H, t(160));
    assert_eq!(
        acts,
        vec![
            Action::TakeControl { x: ENTRY_X, y: 100, src_w: W as u32, src_h: H as u32 },
            Action::Warp { x: 1, y: 100 },
        ]
    );
    assert!(a.linked);
    assert_eq!(a.mode, Mode::Source);
}

#[test]
fn forward_moves_while_linked() {
    let mut a = Arbiter::new(Layout::PeerRight);
    a.on_cursor(EDGE_X, 100, W, H, t(0));
    a.on_cursor(EDGE_X, 100, W, H, t(160));
    let acts = a.on_cursor(100, 200, W, H, t(200));
    assert_eq!(
        acts,
        vec![Action::Forward(Payload::MouseMove { x: 100, y: 200, src_w: W as u32, src_h: H as u32 })]
    );
    let act = a.on_input(Payload::Key { key: Key::A, scan: 0x1E, extended: false, down: true });
    assert_eq!(
        act,
        Action::Forward(Payload::Key { key: Key::A, scan: 0x1E, extended: false, down: true })
    );
}

#[test]
fn release_when_back_at_exit_edge() {
    let mut a = Arbiter::new(Layout::PeerRight);
    a.on_cursor(EDGE_X, 100, W, H, t(0));
    a.on_cursor(EDGE_X, 100, W, H, t(160));
    assert!(a.on_cursor(EDGE_X, 300, W, H, t(200)).is_empty());
    let acts = a.on_cursor(EDGE_X, 300, W, H, t(360));
    assert_eq!(acts, vec![Action::ReleaseControl]);
    assert!(!a.linked);
    assert!(a.on_cursor(100, 200, W, H, t(400)).is_empty());
}

#[test]
fn sink_side_retake() {
    let mut a = Arbiter::new(Layout::PeerRight);
    assert_eq!(a.on_peer_take(ENTRY_X, 100), Some((ENTRY_X, 100)));
    assert_eq!(a.mode, Mode::Sink);
    assert!(a.on_cursor(500, 400, W, H, t(100)).is_empty());
    a.on_cursor(EDGE_X, 300, W, H, t(200));
    let acts = a.on_cursor(EDGE_X, 300, W, H, t(360));
    assert_eq!(
        acts,
        vec![
            Action::TakeControl { x: ENTRY_X, y: 300, src_w: W as u32, src_h: H as u32 },
            Action::Warp { x: 1, y: 300 },
        ]
    );
    assert_eq!(a.mode, Mode::Source);
    assert!(a.linked);
}

#[test]
fn tick_triggers_when_cursor_stops_at_edge() {
    let mut a = Arbiter::new(Layout::PeerRight);
    a.on_cursor(EDGE_X, 100, W, H, t(0));
    assert!(a.on_tick(t(100)).is_empty());
    let acts = a.on_tick(t(160));
    assert_eq!(acts.len(), 2); // TakeControl + Warp
    assert!(a.linked);
}

#[test]
fn peer_left_mirrors() {
    let mut a = Arbiter::new(Layout::PeerLeft);
    a.on_cursor(0, 100, W, H, t(0));
    let acts = a.on_cursor(0, 100, W, H, t(160));
    assert_eq!(
        acts,
        vec![
            Action::TakeControl { x: W - 1, y: 100, src_w: W as u32, src_h: H as u32 },
            Action::Warp { x: W - 2, y: 100 },
        ]
    );
}

#[test]
fn release_peer() {
    let mut a = Arbiter::new(Layout::PeerRight);
    a.on_peer_take(0, 0);
    a.on_peer_release();
    assert_eq!(a.mode, Mode::Source);
    assert!(!a.linked);
}

#[test]
fn touching_the_edge_is_not_enough() {
    let mut a = Arbiter::new(Layout::PeerRight);
    assert!(a.on_cursor(EDGE_X, 100, W, H, t(0)).is_empty());
    assert!(a.on_cursor(EDGE_X, 100, W, H, t(149)).is_empty());
    assert!(!a.linked);
    assert_eq!(a.on_cursor(EDGE_X, 100, W, H, t(150)).len(), 2);
}

#[test]
fn leaving_the_edge_starts_the_rest_anew() {
    let mut a = Arbiter::new(Layout::PeerRight);
    a.on_cursor(EDGE_X, 100, W, H, t(0));
    assert!(a.on_cursor(600, 100, W, H, t(100)).is_empty());
    assert!(a.on_cursor(EDGE_X, 100, W, H, t(120)).is_empty());
    assert!(a.on_cursor(EDGE_X, 100, W, H, t(200)).is_empty());
    assert_eq!(a.on_cursor(EDGE_X, 100, W, H, t(270)).len(), 2);
}

#[test]
fn sink_forwards_nothing() {
    let mut a = Arbiter::new(Layout::PeerRight);
    a.on_peer_take(0, 0);
    let key = Payload::Key { key: Key::A, scan: 0, extended: false, down: true };
    assert_eq!(a.on_input(key), Action::Nothing);
    assert!(a.on_cursor(500, 400, W, H, t(0)).is_empty());
}

#[test]
fn resting_cursor_of_the_peer_gives_back_in_spite_of_drift() {
    let mut a = Arbiter::new(Layout::PeerRight);
    a.on_peer_take(0, 100);
    assert!(a.on_sink_tick(Some((600, 100)), W, H, t(0)).is_empty());
    assert!(a.on_sink_tick(Some((W - 20, 100)), W, H, t(1000)).is_empty());
    assert!(a.on_sink_tick(Some((W - 18, 103)), W, H, t(1100)).is_empty());
    assert_eq!(a.on_sink_tick(Some((W - 22, 97)), W, H, t(1150)), vec![Action::ReleaseControl]);
    assert_eq!(a.mode, Mode::Source);
}

#[test]
fn moving_cursor_of_the_peer_does_not_give_back() {
    let mut a = Arbiter::new(Layout::PeerRight);
    a.on_peer_take(0, 100);
    assert!(a.on_sink_tick(None, W, H, t(0)).is_empty());
    assert!(a.on_sink_tick(Some((W - 20, 100)), W, H, t(1000)).is_empty());
    assert!(a.on_sink_tick(Some((W - 20, 104)), W, H, t(1150)).is_empty());
    assert!(a.on_sink_tick(None, W, H, t(1400)).is_empty());
    assert!(a.on_sink_tick(Some((600, 104)), W, H, t(1800)).is_empty());
    assert_eq!(a.mode, Mode::Sink);
}

#[test]
fn control_is_kept_for_a_second() {
    let mut a = Arbiter::new(Layout::PeerRight);
    a.on_peer_take(W - 1, 100);
    let entry = Some((W - 1, 100));
    assert!(a.on_sink_tick(entry, W, H, t(50)).is_empty());
    assert!(a.on_sink_tick(entry, W, H, t(200)).is_empty());
    assert!(a.on_sink_tick(entry, W, H, t(1049)).is_empty());
    assert_eq!(a.mode, Mode::Sink);
    assert_eq!(a.on_sink_tick(entry, W, H, t(1050)), vec![Action::ReleaseControl]);
    // The next take counts anew.
    a.on_peer_take(W - 1, 100);
    assert!(a.on_sink_tick(entry, W, H, t(5000)).is_empty());
    assert!(a.on_sink_tick(entry, W, H, t(5999)).is_empty());
    assert_eq!(a.on_sink_tick(entry, W, H, t(6000)), vec![Action::ReleaseControl]);
}

#[test]
fn place_of_exit_is_remembered() {
    let mut a = Arbiter::new(Layout::PeerRight);
    assert_eq!(a.exit_pos(), None);
    a.on_cursor(EDGE_X, 321, W, H, t(0));
    a.on_tick(t(150));
    assert_eq!(a.exit_pos(), Some((EDGE_X, 321)));
}
