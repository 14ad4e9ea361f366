//! What becomes of the mouse and keyboard events that the hooks see.

use vstd::prelude::*;

use crate::geometry::trunc_div;
use crate::platform::win::codes::{key_of_vk, vk_to_key};
use crate::protocol::Payload;

verus! {

pub const WM_KEYDOWN: u32 = 0x0100;

pub const WM_KEYUP: u32 = 0x0101;

pub const WM_SYSKEYDOWN: u32 = 0x0104;

pub const WM_SYSKEYUP: u32 = 0x0105;

pub const WM_MOUSEMOVE: u32 = 0x0200;

pub const WM_LBUTTONDOWN: u32 = 0x0201;

pub const WM_LBUTTONUP: u32 = 0x0202;

pub const WM_RBUTTONDOWN: u32 = 0x0204;

pub const WM_RBUTTONUP: u32 = 0x0205;

pub const WM_MBUTTONDOWN: u32 = 0x0207;

pub const WM_MBUTTONUP: u32 = 0x0208;

pub const WM_MOUSEWHEEL: u32 = 0x020A;

pub const WM_XBUTTONDOWN: u32 = 0x020B;

pub const WM_XBUTTONUP: u32 = 0x020C;

pub const WM_MOUSEHWHEEL: u32 = 0x020E;

/// One notch of the wheel.
pub const WHEEL_NOTCH: i32 = 120;

/// The flag of a raw mouse packet whose coordinates are absolute.
pub const MOUSE_MOVE_ABSOLUTE: u16 = 1;

/// What the capture of local input depends on.
#[derive(Debug, Clone, Copy, PartialEq, Eq, Structural)]
pub struct HookState {
    /// This machine controls the peer: local input is not for this machine.
    pub blocked: bool,
    /// The peer controls this machine.
    pub sink: bool,
    /// A raw movement was seen in this round.
    pub raw_move_seen: bool,
    /// Input that programs made is not captured.
    pub suppress_injected: bool,
    /// What is left of the wheel's turns after whole notches, up and down.
    pub wheel_v: i32,
    /// The same, sideways.
    pub wheel_h: i32,
}

impl HookState {
    /// Less than a notch is left over.
    pub open spec fn wf(self) -> bool {
        -WHEEL_NOTCH < self.wheel_v < WHEEL_NOTCH && -WHEEL_NOTCH < self.wheel_h < WHEEL_NOTCH
    }

    /// Neither side controls the other.
    pub fn new(suppress_injected: bool) -> (h: Self)
        ensures
            h.wf(),
            h == (HookState {
                blocked: false,
                sink: false,
                raw_move_seen: false,
                suppress_injected,
                wheel_v: 0,
                wheel_h: 0,
            }),
    {
        HookState {
            blocked: false,
            sink: false,
            raw_move_seen: false,
            suppress_injected,
            wheel_v: 0,
            wheel_h: 0,
        }
    }
}

/// Says whether local input is kept from this machine. Returns whether the
/// window that shields the desktop from the mouse is shown.
pub fn set_local_input_blocked(hook: &mut HookState, blocked: bool) -> (shield: bool)
    ensures
        *final(hook) == (HookState {
            blocked,
            raw_move_seen: old(hook).raw_move_seen && !blocked,
            ..*old(hook)
        }),
        shield == blocked,
{
    hook.blocked = blocked;
    if blocked {
        hook.raw_move_seen = false;
    }
    blocked
}

/// Says whether the peer controls this machine. While it does, the local mouse
/// does not move the cursor.
pub fn set_sink_active(hook: &mut HookState, active: bool)
    ensures
        *final(hook) == (HookState { sink: active, ..*old(hook) }),
{
    hook.sink = active;
}

/// The movement in a raw mouse packet. Packets of absolute devices hold positions,
/// not movements, and packets without movement say nothing.
pub open spec fn raw_delta(flags: u16, dx: i32, dy: i32) -> Option<(i32, i32)> {
    if flags % 2 == MOUSE_MOVE_ABSOLUTE || (dx == 0 && dy == 0) { None } else { Some((dx, dy)) }
}

/// The movement in a raw mouse packet, if it holds one.
pub fn raw_relative_delta(flags: u16, dx: i32, dy: i32) -> (r: Option<(i32, i32)>)
    ensures
        r == raw_delta(flags, dx, dy),
{
    if flags % 2 == MOUSE_MOVE_ABSOLUTE || (dx == 0 && dy == 0) { None } else { Some((dx, dy)) }
}

/// Whether raw movements are sent to the peer.
pub open spec fn forwards_raw(h: HookState) -> bool {
    h.blocked && !h.sink
}

/// What a raw mouse packet sends, and what is known then.
pub open spec fn raw_verdict(h: HookState, flags: u16, dx: i32, dy: i32) -> (
    HookState,
    Option<Payload>,
) {
    match raw_delta(flags, dx, dy) {
        Some((mx, my)) if forwards_raw(h) => (
            HookState { raw_move_seen: true, ..h },
            Some(Payload::MouseMoveRelative { dx: mx, dy: my }),
        ),
        _ => (h, None),
    }
}

/// A raw mouse packet arrived. While this machine controls the peer, its movement
/// is sent there.
pub fn on_raw_mouse(hook: &mut HookState, flags: u16, dx: i32, dy: i32) -> (r: Option<Payload>)
    ensures
        match raw_delta(flags, dx, dy) {
            Some((mx, my)) if forwards_raw(*old(hook)) => {
                &&& r == Some(Payload::MouseMoveRelative { dx: mx, dy: my })
                &&& *final(hook) == (HookState { raw_move_seen: true, ..*old(hook) })
            },
            _ => r is None && *final(hook) == *old(hook),
        },
        (*final(hook), r) == raw_verdict(*old(hook), flags, dx, dy),
{
    if !hook.blocked || hook.sink {
        return None;
    }
    match raw_relative_delta(flags, dx, dy) {
        Some((mx, my)) => {
            hook.raw_move_seen = true;
            Some(Payload::MouseMoveRelative { dx: mx, dy: my })
        },
        None => None,
    }
}

/// The high half of the data of a mouse message.
pub open spec fn high_half(data: u32) -> int {
    data as int / 0x1_0000
}

/// Buttons 1 and 2 of the message are back and forward.
pub open spec fn side_button(data: u32) -> Option<u8> {
    if high_half(data) == 1 {
        Some(3u8)
    } else if high_half(data) == 2 {
        Some(4u8)
    } else {
        None
    }
}

/// Which side button a mouse message is about: 3 is back, 4 is forward.
pub fn xbutton_id_from_mouse_data(mouse_data: u32) -> (r: Option<u8>)
    ensures
        r == side_button(mouse_data),
{
    match mouse_data / 0x1_0000 {
        1 => Some(3),
        2 => Some(4),
        _ => None,
    }
}

/// How far a wheel message says the wheel was turned.
pub open spec fn wheel_turn(data: u32) -> int {
    if high_half(data) < 0x8000 { high_half(data) } else { high_half(data) - 0x1_0000 }
}

/// The whole notches of a turn, and what is left over, when `left` was left over
/// before. A turn by whole notches is passed on as it is.
pub open spec fn notches(data: u32, left: int) -> (int, int) {
    let turn = wheel_turn(data);
    if turn % (WHEEL_NOTCH as int) == 0 {
        (turn / (WHEEL_NOTCH as int), left)
    } else {
        let total = left + turn;
        let whole = trunc_div(total, WHEEL_NOTCH as int);
        (whole, total - whole * WHEEL_NOTCH)
    }
}

fn whole_notches(total: i32) -> (r: i32)
    requires
        -0x1_0000 <= total <= 0x1_0000,
    ensures
        r == trunc_div(total as int, WHEEL_NOTCH as int),
{
    if total >= 0 {
        total / WHEEL_NOTCH
    } else {
        -((-total) / WHEEL_NOTCH)
    }
}

/// Adds a turn of the wheel to what was left over, and returns the whole notches.
/// Mice that turn in small steps lose nothing.
pub fn wheel_delta(data: u32, left: &mut i32) -> (r: i32)
    requires
        -WHEEL_NOTCH < *old(left) < WHEEL_NOTCH,
    ensures
        -WHEEL_NOTCH < *final(left) < WHEEL_NOTCH,
        (r as int, *final(left) as int) == notches(data, *old(left) as int),
{
    let high: u32 = data / 0x1_0000;
    let turn: i32 = if high < 0x8000 { high as i32 } else { high as i32 - 0x1_0000 };
    let whole: i32 = whole_notches(turn);
    if whole * WHEEL_NOTCH == turn {
        return whole;
    }
    let total: i32 = *left + turn;
    let clicks: i32 = whole_notches(total);
    *left = total - clicks * WHEEL_NOTCH;
    clicks
}

/// No turn of the wheel is lost or made up: what is reported and what is left over
/// add up to what was turned.
pub proof fn law_wheel_turns_add_up(data: u32, left: int)
    ensures
        ({
            let n = notches(data, left);
            n.0 * WHEEL_NOTCH + n.1 == left + wheel_turn(data)
        }),
{
}

/// A mouse message from the hook.
#[derive(Debug, Clone, Copy, PartialEq, Eq, Structural)]
pub struct MouseEvent {
    pub message: u32,
    pub x: i32,
    pub y: i32,
    pub data: u32,
    /// A program made it.
    pub injected: bool,
}

/// What a mouse message says, and what is left over of the wheel's turns.
pub open spec fn mouse_payload(h: HookState, e: MouseEvent, w: i32, height: i32) -> (
    HookState,
    Option<Payload>,
) {
    if e.message == WM_MOUSEMOVE {
        (
            h,
            Some(Payload::MouseMove { x: e.x, y: e.y, src_w: w as u32, src_h: height as u32 }),
        )
    } else if e.message == WM_LBUTTONDOWN {
        (h, Some(Payload::MouseButton { button: 0, down: true }))
    } else if e.message == WM_LBUTTONUP {
        (h, Some(Payload::MouseButton { button: 0, down: false }))
    } else if e.message == WM_RBUTTONDOWN {
        (h, Some(Payload::MouseButton { button: 1, down: true }))
    } else if e.message == WM_RBUTTONUP {
        (h, Some(Payload::MouseButton { button: 1, down: false }))
    } else if e.message == WM_MBUTTONDOWN {
        (h, Some(Payload::MouseButton { button: 2, down: true }))
    } else if e.message == WM_MBUTTONUP {
        (h, Some(Payload::MouseButton { button: 2, down: false }))
    } else if e.message == WM_XBUTTONDOWN || e.message == WM_XBUTTONUP {
        (
            h,
            match side_button(e.data) {
                Some(button) => Some(
                    Payload::MouseButton { button, down: e.message == WM_XBUTTONDOWN },
                ),
                None => None,
            },
        )
    } else if e.message == WM_MOUSEWHEEL {
        let n = notches(e.data, h.wheel_v as int);
        (
            HookState { wheel_v: n.1 as i32, ..h },
            if n.0 == 0 {
                None
            } else {
                Some(Payload::MouseWheel { dx: 0, dy: n.0 as i32 })
            },
        )
    } else if e.message == WM_MOUSEHWHEEL {
        let n = notches(e.data, h.wheel_h as int);
        (
            HookState { wheel_h: n.1 as i32, ..h },
            if n.0 == 0 {
                None
            } else {
                Some(Payload::MouseWheel { dx: n.0 as i32, dy: 0 })
            },
        )
    } else {
        (h, None)
    }
}

/// What a mouse message says, on a screen of `w` by `h` pixels.
pub fn mouse_to_payload(hook: &mut HookState, e: MouseEvent, w: i32, h: i32) -> (r: Option<Payload>)
    requires
        old(hook).wf(),
    ensures
        final(hook).wf(),
        (*final(hook), r) == mouse_payload(*old(hook), e, w, h),
{
    match e.message {
        WM_MOUSEMOVE => Some(
            Payload::MouseMove { x: e.x, y: e.y, src_w: w as u32, src_h: h as u32 },
        ),
        WM_LBUTTONDOWN => Some(Payload::MouseButton { button: 0, down: true }),
        WM_LBUTTONUP => Some(Payload::MouseButton { button: 0, down: false }),
        WM_RBUTTONDOWN => Some(Payload::MouseButton { button: 1, down: true }),
        WM_RBUTTONUP => Some(Payload::MouseButton { button: 1, down: false }),
        WM_MBUTTONDOWN => Some(Payload::MouseButton { button: 2, down: true }),
        WM_MBUTTONUP => Some(Payload::MouseButton { button: 2, down: false }),
        WM_XBUTTONDOWN => match xbutton_id_from_mouse_data(e.data) {
            Some(button) => Some(Payload::MouseButton { button, down: true }),
            None => None,
        },
        WM_XBUTTONUP => match xbutton_id_from_mouse_data(e.data) {
            Some(button) => Some(Payload::MouseButton { button, down: false }),
            None => None,
        },
        WM_MOUSEWHEEL => {
            let mut left: i32 = hook.wheel_v;
            let dy: i32 = wheel_delta(e.data, &mut left);
            hook.wheel_v = left;
            if dy == 0 {
                None
            } else {
                Some(Payload::MouseWheel { dx: 0, dy })
            }
        },
        WM_MOUSEHWHEEL => {
            let mut left: i32 = hook.wheel_h;
            let dx: i32 = wheel_delta(e.data, &mut left);
            hook.wheel_h = left;
            if dx == 0 {
                None
            } else {
                Some(Payload::MouseWheel { dx, dy: 0 })
            }
        },
        _ => None,
    }
}

/// What becomes of an input event: what is passed on to the program, and whether
/// the event is kept from the rest of the system.
pub struct Verdict {
    pub send: Option<Payload>,
    pub swallow: bool,
}

pub open spec fn is_wheel(message: u32) -> bool {
    message == WM_MOUSEWHEEL || message == WM_MOUSEHWHEEL
}

pub open spec fn is_side_button(message: u32) -> bool {
    message == WM_XBUTTONDOWN || message == WM_XBUTTONUP
}

/// Whether a mouse message is looked at. Input that programs made is left alone,
/// with two exceptions: the wheel, which some mouse drivers turn by program, and
/// the side buttons while this machine controls the peer.
pub open spec fn captures_mouse(h: HookState, e: MouseEvent) -> bool {
    !h.suppress_injected || !e.injected || is_wheel(e.message) || (is_side_button(e.message)
        && forwards_raw(h))
}

/// Whether a mouse message that says `p` is kept from this machine: while either
/// machine controls the other, clicks and turns of the wheel are, except turns that
/// the peer makes here; while the peer is in control, so are local movements.
pub open spec fn swallows_mouse(h: HookState, e: MouseEvent, p: Payload) -> bool {
    match p {
        Payload::MouseButton { .. } => h.blocked || h.sink,
        Payload::MouseWheel { .. } => (h.blocked || h.sink) && !e.injected,
        Payload::MouseMove { .. } => h.sink && !e.injected,
        _ => false,
    }
}

/// What becomes of a mouse message. While this machine controls the peer, its
/// movements are sent from the raw packets instead.
pub open spec fn mouse_verdict(h: HookState, e: MouseEvent, w: i32, height: i32) -> (
    HookState,
    Option<Payload>,
    bool,
) {
    if captures_mouse(h, e) {
        let r = mouse_payload(h, e, w, height);
        match r.1 {
            Some(p) => (
                r.0,
                if e.message == WM_MOUSEMOVE && forwards_raw(h) {
                    None
                } else {
                    Some(p)
                },
                swallows_mouse(h, e, p),
            ),
            None => (r.0, None, false),
        }
    } else {
        (h, None, false)
    }
}

/// A mouse message arrived, on a screen of `w` by `h` pixels.
pub fn on_mouse(hook: &mut HookState, e: MouseEvent, w: i32, h: i32) -> (v: Verdict)
    requires
        old(hook).wf(),
    ensures
        final(hook).wf(),
        (*final(hook), v.send, v.swallow) == mouse_verdict(*old(hook), e, w, h),
{
    let wheel = e.message == WM_MOUSEWHEEL || e.message == WM_MOUSEHWHEEL;
    let side = e.message == WM_XBUTTONDOWN || e.message == WM_XBUTTONUP;
    let source = hook.blocked && !hook.sink;
    if hook.suppress_injected && e.injected && !wheel && !(side && source) {
        return Verdict { send: None, swallow: false };
    }
    match mouse_to_payload(hook, e, w, h) {
        Some(p) => {
            let swallow: bool = match &p {
                Payload::MouseButton { .. } => hook.blocked || hook.sink,
                Payload::MouseWheel { .. } => (hook.blocked || hook.sink) && !e.injected,
                Payload::MouseMove { .. } => hook.sink && !e.injected,
                _ => false,
            };
            if e.message == WM_MOUSEMOVE && source {
                Verdict { send: None, swallow }
            } else {
                Verdict { send: Some(p), swallow }
            }
        },
        None => Verdict { send: None, swallow: false },
    }
}

/// A keyboard message from the hook.
#[derive(Debug, Clone, Copy, PartialEq, Eq, Structural)]
pub struct KeyEvent {
    pub message: u32,
    pub vk: u32,
    pub scan: u32,
    pub extended: bool,
    /// A program made it.
    pub injected: bool,
}

/// What a keyboard message says.
pub open spec fn key_payload(e: KeyEvent) -> Option<Payload> {
    let down = e.message == WM_KEYDOWN || e.message == WM_SYSKEYDOWN;
    if down || e.message == WM_KEYUP || e.message == WM_SYSKEYUP {
        Some(
            Payload::Key {
                key: key_of_vk(e.vk),
                scan: (e.scan % 0x1_0000) as u16,
                extended: e.extended,
                down,
            },
        )
    } else {
        None
    }
}

/// What a keyboard message says.
pub fn keyboard_to_payload(e: KeyEvent) -> (r: Option<Payload>)
    ensures
        r == key_payload(e),
{
    let down: bool = match e.message {
        WM_KEYDOWN => true,
        WM_SYSKEYDOWN => true,
        WM_KEYUP => false,
        WM_SYSKEYUP => false,
        _ => {
            return None;
        },
    };
    Some(
        Payload::Key {
            key: vk_to_key(e.vk),
            scan: (e.scan % 0x1_0000) as u16,
            extended: e.extended,
            down,
        },
    )
}

/// Whether a key is looked at. Keys that programs made are left alone, except
/// while this machine controls the peer: then they are part of what the user does.
pub fn should_capture_keyboard_event(
    suppress_injected_events: bool,
    injected: bool,
    blocked: bool,
    sink: bool,
) -> (r: bool)
    ensures
        r == (!suppress_injected_events || !injected || (blocked && !sink)),
{
    !suppress_injected_events || !injected || (blocked && !sink)
}

/// What becomes of a key: it is passed on, and while either machine controls the
/// other it is kept from this machine.
pub open spec fn key_verdict(h: HookState, e: KeyEvent) -> (Option<Payload>, bool) {
    if (!h.suppress_injected || !e.injected || forwards_raw(h)) && key_payload(e) is Some {
        (key_payload(e), h.blocked || h.sink)
    } else {
        (None, false)
    }
}

/// A keyboard message arrived.
pub fn on_keyboard(hook: &HookState, e: KeyEvent) -> (v: Verdict)
    ensures
        (v.send, v.swallow) == key_verdict(*hook, e),
{
    if should_capture_keyboard_event(hook.suppress_injected, e.injected, hook.blocked, hook.sink) {
        match keyboard_to_payload(e) {
            Some(p) => Verdict { send: Some(p), swallow: hook.blocked || hook.sink },
            None => Verdict { send: None, swallow: false },
        }
    } else {
        Verdict { send: None, swallow: false }
    }
}

/// While either machine controls the other, no key, click or turn of the wheel of
/// the local user reaches this machine; while the peer is in control, no movement
/// does either.
pub proof fn law_local_input_is_kept_away(
    h: HookState,
    m: MouseEvent,
    k: KeyEvent,
    w: i32,
    height: i32,
)
    requires
        h.blocked || h.sink,
        !m.injected,
        !k.injected,
    ensures
        mouse_payload(h, m, w, height).1 matches Some(p) && (p is MouseButton || p is MouseWheel)
            ==> mouse_verdict(h, m, w, height).2,
        key_payload(k) is Some ==> key_verdict(h, k).1,
        h.sink && m.message == WM_MOUSEMOVE ==> mouse_verdict(h, m, w, height).2,
{
}

/// What the peer plays on this machine is not captured again, so nothing goes
/// round in circles: only the wheel is, and it is not kept from this machine.
pub proof fn law_played_input_is_not_captured(
    h: HookState,
    m: MouseEvent,
    k: KeyEvent,
    w: i32,
    height: i32,
)
    requires
        h.sink,
        h.suppress_injected,
        m.injected,
        k.injected,
    ensures
        key_verdict(h, k) == (None::<Payload>, false),
        !is_wheel(m.message) ==> mouse_verdict(h, m, w, height) == (h, None::<Payload>, false),
        is_wheel(m.message) ==> !mouse_verdict(h, m, w, height).2,
{
}

/// A raw packet is sent as the distance that it holds while this machine controls the
/// peer, and at no other time. Packets of absolute devices, which have the lowest flag,
/// and packets without a distance say nothing.
pub proof fn law_what_raw_packets_do(h: HookState, flags: u16, dx: i32, dy: i32)
    ensures
        h.blocked && !h.sink && flags % 2 == 0 && (dx != 0 || dy != 0) ==> {
            &&& raw_verdict(h, flags, dx, dy).1 == Some(Payload::MouseMoveRelative { dx, dy })
            &&& raw_verdict(h, flags, dx, dy).0.raw_move_seen
        },
        !h.blocked || h.sink || flags % 2 == 1 || (dx == 0 && dy == 0) ==> raw_verdict(
            h,
            flags,
            dx,
            dy,
        ) == (h, None::<Payload>),
{
}

/// What each message of the mouse says, by its number: the place where it is, or which
/// button went down or up, the left one being 0, the right one 1, the middle one 2, back 3
/// and forward 4.
pub proof fn law_what_mouse_messages_say(h: HookState, e: MouseEvent, w: i32, height: i32)
    ensures
        ({
            let p = mouse_payload(h, e, w, height).1;
            &&& e.message == 0x0200 ==> p == Some(
                Payload::MouseMove { x: e.x, y: e.y, src_w: w as u32, src_h: height as u32 },
            )
            &&& e.message == 0x0201 ==> p == Some(Payload::MouseButton { button: 0, down: true })
            &&& e.message == 0x0202 ==> p == Some(Payload::MouseButton { button: 0, down: false })
            &&& e.message == 0x0204 ==> p == Some(Payload::MouseButton { button: 1, down: true })
            &&& e.message == 0x0205 ==> p == Some(Payload::MouseButton { button: 1, down: false })
            &&& e.message == 0x0207 ==> p == Some(Payload::MouseButton { button: 2, down: true })
            &&& e.message == 0x0208 ==> p == Some(Payload::MouseButton { button: 2, down: false })
            &&& e.message == 0x020B && 0x1_0000 <= e.data < 0x2_0000 ==> p == Some(
                Payload::MouseButton { button: 3, down: true },
            )
            &&& e.message == 0x020C && 0x1_0000 <= e.data < 0x2_0000 ==> p == Some(
                Payload::MouseButton { button: 3, down: false },
            )
            &&& e.message == 0x020B && 0x2_0000 <= e.data < 0x3_0000 ==> p == Some(
                Payload::MouseButton { button: 4, down: true },
            )
            &&& e.message == 0x020C && 0x2_0000 <= e.data < 0x3_0000 ==> p == Some(
                Payload::MouseButton { button: 4, down: false },
            )
            &&& (e.message == 0x020B || e.message == 0x020C) && (e.data < 0x1_0000 || e.data
                >= 0x3_0000) ==> p is None
            &&& e.message < 0x0200 || e.message == 0x0203 || e.message == 0x0206 || e.message
                == 0x0209 || e.message == 0x020D || e.message > 0x020E ==> p is None
            &&& e.message != 0x020A && e.message != 0x020E ==> mouse_payload(h, e, w, height).0 == h
        }),
{
}

/// A turn of the wheel is its high half as a signed number. It is reported in notches of
/// 120, up and down for one message and sideways for the other; what is left over is kept
/// for the next turn in the same direction, and is always less than a notch.
pub proof fn law_what_wheel_messages_say(h: HookState, e: MouseEvent, w: i32, height: i32)
    requires
        h.wf(),
        e.message == 0x020A || e.message == 0x020E,
    ensures
        ({
            let high = e.data as int / 0x1_0000;
            let turn = if high < 0x8000 {
                high
            } else {
                high - 0x1_0000
            };
            let r = mouse_payload(h, e, w, height);
            let vertical = e.message == 0x020A;
            let n = match r.1 {
                Some(Payload::MouseWheel { dx, dy }) => if vertical {
                    dy as int
                } else {
                    dx as int
                },
                _ => 0,
            };
            let before = if vertical {
                h.wheel_v as int
            } else {
                h.wheel_h as int
            };
            let left = if vertical {
                r.0.wheel_v as int
            } else {
                r.0.wheel_h as int
            };
            &&& 120 * n + left == before + turn
            &&& -120 < left < 120
            &&& turn % 120 == 0 ==> left == before
            &&& r.1 is None <==> n == 0
            &&& r.1 matches Some(p) ==> {
                &&& p is MouseWheel
                &&& vertical ==> p->MouseWheel_dx == 0
                &&& !vertical ==> p->MouseWheel_dy == 0
            }
            &&& vertical ==> r.0.wheel_h == h.wheel_h
            &&& !vertical ==> r.0.wheel_v == h.wheel_v
            &&& r.0.blocked == h.blocked && r.0.sink == h.sink
        }),
{
}

/// What each message of the keyboard says, by its number: which key went down or up.
pub proof fn law_what_key_messages_say(e: KeyEvent)
    ensures
        e.message == 0x0100 || e.message == 0x0104 ==> (key_payload(e) matches Some(
            Payload::Key { key, scan, extended, down },
        ) && key == key_of_vk(e.vk) && extended == e.extended && down && (e.scan < 0x1_0000 ==> scan
            == e.scan)),
        e.message == 0x0101 || e.message == 0x0105 ==> (key_payload(e) matches Some(
            Payload::Key { key, scan, extended, down },
        ) && key == key_of_vk(e.vk) && extended == e.extended && !down && (e.scan < 0x1_0000 ==> scan
            == e.scan)),
        e.message != 0x0100 && e.message != 0x0101 && e.message != 0x0104 && e.message != 0x0105
            ==> key_payload(e) is None,
{
}

/// What becomes of keys. Those of the user are sent, and kept from this machine exactly
/// while either machine controls the other. Those that programs made count only while this
/// machine controls the peer, where they are to be left alone.
pub proof fn law_what_becomes_of_keys(h: HookState, e: KeyEvent)
    requires
        key_payload(e) is Some,
    ensures
        !e.injected || !h.suppress_injected || (h.blocked && !h.sink) ==> key_verdict(h, e) == (
            key_payload(e),
            h.blocked || h.sink,
        ),
        e.injected && h.suppress_injected && (!h.blocked || h.sink) ==> key_verdict(h, e) == (
            None::<Payload>,
            false,
        ),
{
}

/// What becomes of the user's mouse. Clicks and turns are sent, and kept from this machine
/// exactly while either machine controls the other. The place of the mouse is sent unless
/// this machine controls the peer, and kept from this machine while the peer controls it.
pub proof fn law_what_becomes_of_the_mouse(h: HookState, e: MouseEvent, w: i32, height: i32)
    requires
        !e.injected,
    ensures
        ({
            let says = mouse_payload(h, e, w, height);
            let v = mouse_verdict(h, e, w, height);
            &&& v.0 == says.0
            &&& says.1 is None ==> v.1 is None && !v.2
            &&& says.1 matches Some(p) ==> {
                &&& p is MouseButton || p is MouseWheel ==> v.1 == Some(p) && v.2 == (h.blocked
                    || h.sink)
                &&& p is MouseMove && h.blocked && !h.sink ==> v.1 is None && !v.2
                &&& p is MouseMove && (!h.blocked || h.sink) ==> v.1 == Some(p) && v.2 == h.sink
            }
        }),
{
}

/// What becomes of a mouse that a program moves, where such input is to be left alone: the
/// wheel is sent and never kept from this machine, the side buttons count while this
/// machine controls the peer, and nothing else counts.
pub proof fn law_what_becomes_of_played_mouse_input(
    h: HookState,
    e: MouseEvent,
    w: i32,
    height: i32,
)
    requires
        e.injected,
        h.suppress_injected,
    ensures
        ({
            let says = mouse_payload(h, e, w, height);
            let v = mouse_verdict(h, e, w, height);
            let wheel = e.message == 0x020A || e.message == 0x020E;
            let side = e.message == 0x020B || e.message == 0x020C;
            &&& wheel ==> v == (says.0, says.1, false)
            &&& side && h.blocked && !h.sink ==> v == (says.0, says.1, says.1 is Some)
            &&& !wheel && !(side && h.blocked && !h.sink) ==> v == (h, None::<Payload>, false)
        }),
{
}

} // verus!
