//! What becomes of the mouse and keyboard events that the event taps see.

use vstd::prelude::*;

use crate::geometry::{low_bits, wrap_i32};
use crate::platform::mac::codes::{cg_to_key, is_modifier_down, key_of_cg, modifier_down};
use crate::platform::mac::RUISS_EVENT_MARKER;
use crate::protocol::Payload;

verus! {

/// The kinds of events.
#[derive(Debug, Clone, Copy, PartialEq, Eq, Structural)]
pub enum EventKind {
    MouseMoved,
    LeftMouseDragged,
    RightMouseDragged,
    OtherMouseDragged,
    LeftMouseDown,
    LeftMouseUp,
    RightMouseDown,
    RightMouseUp,
    OtherMouseDown,
    OtherMouseUp,
    ScrollWheel,
    KeyDown,
    KeyUp,
    FlagsChanged,
    /// The system switched the tap off.
    TapDisabledByTimeout,
    TapDisabledByUserInput,
    Other,
}

/// An event that a tap sees.
#[derive(Debug, Clone, Copy, PartialEq, Eq, Structural)]
pub struct TapEvent {
    pub kind: EventKind,
    /// What the program that made it left in it.
    pub marker: i64,
    /// Where the mouse is.
    pub x: i32,
    pub y: i32,
    /// How far it moved.
    pub dx: i64,
    pub dy: i64,
    /// How far the wheel was turned.
    pub scroll_x: i64,
    pub scroll_y: i64,
    pub keycode: i64,
    pub autorepeat: i64,
    pub flags: u64,
}

/// What the capture of local input depends on.
#[derive(Debug, Clone, Copy, PartialEq, Eq, Structural)]
pub struct TapState {
    /// This machine controls the peer: local input is not for this machine.
    pub blocked: bool,
    /// The peer controls this machine.
    pub sink: bool,
}

impl TapState {
    /// Neither side controls the other.
    pub fn new() -> (t: Self)
        ensures
            t == (TapState { blocked: false, sink: false }),
    {
        TapState { blocked: false, sink: false }
    }
}

/// Says whether local input is kept from this machine.
pub fn set_local_input_blocked(tap: &mut TapState, blocked: bool)
    ensures
        *final(tap) == (TapState { blocked, ..*old(tap) }),
{
    tap.blocked = blocked;
}

/// Says whether the peer controls this machine. Returns whether the place that the
/// local mouse has reached is forgotten: at the start of each round.
pub fn set_sink_active(tap: &mut TapState, active: bool) -> (forget: bool)
    ensures
        *final(tap) == (TapState { sink: active, ..*old(tap) }),
        forget == (active && !old(tap).sink),
{
    let forget = active && !tap.sink;
    tap.sink = active;
    forget
}

/// Whether the mouse moved, with or without a button.
pub open spec fn is_move(kind: EventKind) -> bool {
    kind is MouseMoved || kind is LeftMouseDragged || kind is RightMouseDragged
        || kind is OtherMouseDragged
}

/// Whether the event says that the tap was switched off.
pub open spec fn is_disabled(kind: EventKind) -> bool {
    kind is TapDisabledByTimeout || kind is TapDisabledByUserInput
}

fn moves(kind: EventKind) -> (r: bool)
    ensures
        r == is_move(kind),
{
    match kind {
        EventKind::MouseMoved => true,
        EventKind::LeftMouseDragged => true,
        EventKind::RightMouseDragged => true,
        EventKind::OtherMouseDragged => true,
        _ => false,
    }
}

fn disabled(kind: EventKind) -> (r: bool)
    ensures
        r == is_disabled(kind),
{
    match kind {
        EventKind::TapDisabledByTimeout => true,
        EventKind::TapDisabledByUserInput => true,
        _ => false,
    }
}

/// The key that an event is about.
pub open spec fn key_code(e: TapEvent) -> u16 {
    (e.keycode % 0x1_0000) as u16
}

fn to_key_code(e: TapEvent) -> (code: u16)
    ensures
        code == key_code(e),
{
    let k: i64 = e.keycode;
    #[verifier::truncate]
    let code: u16 = k as u16;
    proof {
        assert(k as u16 == k % 0x1_0000) by (bit_vector);
    }
    code
}

/// What an event says on a screen of `w` by `h` pixels. A key that repeats itself
/// says nothing: the peer repeats it by itself.
pub open spec fn payload_of(e: TapEvent, w: i32, h: i32) -> Option<Payload> {
    match e.kind {
        EventKind::LeftMouseDown => Some(Payload::MouseButton { button: 0, down: true }),
        EventKind::LeftMouseUp => Some(Payload::MouseButton { button: 0, down: false }),
        EventKind::RightMouseDown => Some(Payload::MouseButton { button: 1, down: true }),
        EventKind::RightMouseUp => Some(Payload::MouseButton { button: 1, down: false }),
        EventKind::OtherMouseDown => Some(Payload::MouseButton { button: 2, down: true }),
        EventKind::OtherMouseUp => Some(Payload::MouseButton { button: 2, down: false }),
        EventKind::ScrollWheel => Some(
            Payload::MouseWheel {
                dx: wrap_i32(e.scroll_x as int) as i32,
                dy: wrap_i32(e.scroll_y as int) as i32,
            },
        ),
        EventKind::KeyDown => if e.autorepeat != 0 {
            None
        } else {
            Some(
                Payload::Key {
                    key: key_of_cg(key_code(e)),
                    scan: 0,
                    extended: false,
                    down: true,
                },
            )
        },
        EventKind::KeyUp => Some(
            Payload::Key { key: key_of_cg(key_code(e)), scan: 0, extended: false, down: false },
        ),
        EventKind::FlagsChanged => {
            let key = key_of_cg(key_code(e));
            Some(
                Payload::Key { key, scan: 0, extended: false, down: is_modifier_down(key, e.flags) },
            )
        },
        _ => if is_move(e.kind) {
            Some(Payload::MouseMove { x: e.x, y: e.y, src_w: w as u32, src_h: h as u32 })
        } else {
            None
        },
    }
}

/// What an event says on a screen of `w` by `h` pixels.
pub fn event_to_payload(e: TapEvent, w: i32, h: i32) -> (r: Option<Payload>)
    ensures
        r == payload_of(e, w, h),
{
    if moves(e.kind) {
        return Some(Payload::MouseMove { x: e.x, y: e.y, src_w: w as u32, src_h: h as u32 });
    }
    match e.kind {
        EventKind::LeftMouseDown => Some(Payload::MouseButton { button: 0, down: true }),
        EventKind::LeftMouseUp => Some(Payload::MouseButton { button: 0, down: false }),
        EventKind::RightMouseDown => Some(Payload::MouseButton { button: 1, down: true }),
        EventKind::RightMouseUp => Some(Payload::MouseButton { button: 1, down: false }),
        EventKind::OtherMouseDown => Some(Payload::MouseButton { button: 2, down: true }),
        EventKind::OtherMouseUp => Some(Payload::MouseButton { button: 2, down: false }),
        EventKind::ScrollWheel => Some(
            Payload::MouseWheel { dx: low_bits(e.scroll_x), dy: low_bits(e.scroll_y) },
        ),
        EventKind::KeyDown => {
            if e.autorepeat != 0 {
                None
            } else {
                Some(
                    Payload::Key {
                        key: cg_to_key(to_key_code(e)),
                        scan: 0,
                        extended: false,
                        down: true,
                    },
                )
            }
        },
        EventKind::KeyUp => Some(
            Payload::Key { key: cg_to_key(to_key_code(e)), scan: 0, extended: false, down: false },
        ),
        EventKind::FlagsChanged => {
            let key = cg_to_key(to_key_code(e));
            let down = modifier_down(key, e.flags);
            Some(Payload::Key { key, scan: 0, extended: false, down })
        },
        _ => None,
    }
}

/// What becomes of an event.
pub struct TapVerdict {
    /// The tap was switched off and has to be switched on again.
    pub enable: bool,
    /// The local mouse moved while the peer is in control: add its movement to the
    /// place that it has reached, and send that place.
    pub track: bool,
    pub send: Option<Payload>,
    /// The event is kept from the rest of the system.
    pub drop: bool,
}

/// The movement of the mouse while this machine controls the peer.
pub open spec fn movement(e: TapEvent) -> Option<Payload> {
    let dx = wrap_i32(e.dx as int) as i32;
    let dy = wrap_i32(e.dy as int) as i32;
    if dx == 0 && dy == 0 { None } else { Some(Payload::MouseMoveRelative { dx, dy }) }
}

/// What becomes of an event at the tap in front of the window server, which sees
/// movements, clicks and keys.
pub open spec fn hid_verdict(t: TapState, e: TapEvent, w: i32, h: i32) -> TapVerdict {
    if is_disabled(e.kind) {
        TapVerdict { enable: true, track: false, send: None, drop: true }
    } else if e.marker == RUISS_EVENT_MARKER {
        TapVerdict { enable: false, track: false, send: None, drop: t.blocked && !is_move(e.kind) }
    } else if t.sink && is_move(e.kind) {
        TapVerdict { enable: false, track: true, send: None, drop: true }
    } else if t.blocked && is_move(e.kind) {
        TapVerdict { enable: false, track: false, send: movement(e), drop: true }
    } else if t.blocked {
        TapVerdict { enable: false, track: false, send: payload_of(e, w, h), drop: true }
    } else if t.sink {
        TapVerdict { enable: false, track: false, send: None, drop: true }
    } else {
        TapVerdict {
            enable: false,
            track: false,
            send: if is_move(e.kind) {
                payload_of(e, w, h)
            } else {
                None
            },
            drop: false,
        }
    }
}

/// An event arrived at the tap in front of the window server.
pub fn on_hid_event(t: &TapState, e: TapEvent, w: i32, h: i32) -> (v: TapVerdict)
    ensures
        v == hid_verdict(*t, e, w, h),
{
    if disabled(e.kind) {
        return TapVerdict { enable: true, track: false, send: None, drop: true };
    }
    let moved = moves(e.kind);
    if e.marker == RUISS_EVENT_MARKER {
        return TapVerdict { enable: false, track: false, send: None, drop: t.blocked && !moved };
    }
    if t.sink && moved {
        return TapVerdict { enable: false, track: true, send: None, drop: true };
    }
    if t.blocked && moved {
        let dx: i32 = low_bits(e.dx);
        let dy: i32 = low_bits(e.dy);
        let send: Option<Payload> = if dx == 0 && dy == 0 {
            None
        } else {
            Some(Payload::MouseMoveRelative { dx, dy })
        };
        return TapVerdict { enable: false, track: false, send, drop: true };
    }
    if t.blocked {
        return TapVerdict {
            enable: false,
            track: false,
            send: event_to_payload(e, w, h),
            drop: true,
        };
    }
    if t.sink {
        return TapVerdict { enable: false, track: false, send: None, drop: true };
    }
    let send: Option<Payload> = if moved {
        event_to_payload(e, w, h)
    } else {
        None
    };
    TapVerdict { enable: false, track: false, send, drop: false }
}

/// Where the local mouse has come to while the peer is in control. It is looked at
/// only to see whether control is taken back.
pub fn tracked_move(x: i32, y: i32, w: i32, h: i32) -> (p: Payload)
    ensures
        p == (Payload::MouseMove { x, y, src_w: w as u32, src_h: h as u32 }),
{
    Payload::MouseMove { x, y, src_w: w as u32, src_h: h as u32 }
}

/// Whether an event is a click, a turn of the wheel or a key.
pub open spec fn is_input(kind: EventKind) -> bool {
    !is_move(kind) && !is_disabled(kind) && !(kind is Other)
}

/// What becomes of an event at the tap behind the window server, which sees clicks,
/// keys, and the wheel with the turns that the window server adds.
pub open spec fn session_verdict(t: TapState, e: TapEvent, w: i32, h: i32) -> TapVerdict {
    if is_disabled(e.kind) {
        TapVerdict { enable: true, track: false, send: None, drop: true }
    } else if e.marker == RUISS_EVENT_MARKER {
        TapVerdict { enable: false, track: false, send: None, drop: t.blocked }
    } else {
        TapVerdict {
            enable: false,
            track: false,
            send: payload_of(e, w, h),
            drop: (t.blocked || t.sink) && is_input(e.kind),
        }
    }
}

/// An event arrived at the tap behind the window server.
pub fn on_session_event(t: &TapState, e: TapEvent, w: i32, h: i32) -> (v: TapVerdict)
    ensures
        v == session_verdict(*t, e, w, h),
{
    if disabled(e.kind) {
        return TapVerdict { enable: true, track: false, send: None, drop: true };
    }
    if e.marker == RUISS_EVENT_MARKER {
        return TapVerdict { enable: false, track: false, send: None, drop: t.blocked };
    }
    let input: bool = match e.kind {
        EventKind::Other => false,
        _ => !moves(e.kind),
    };
    TapVerdict {
        enable: false,
        track: false,
        send: event_to_payload(e, w, h),
        drop: (t.blocked || t.sink) && input,
    }
}

/// While either machine controls the other, no event of the local user reaches this
/// machine.
pub proof fn law_local_input_is_kept_away(t: TapState, e: TapEvent, w: i32, h: i32)
    requires
        t.blocked || t.sink,
        e.marker != RUISS_EVENT_MARKER,
    ensures
        hid_verdict(t, e, w, h).drop,
        is_input(e.kind) ==> session_verdict(t, e, w, h).drop,
{
}

/// What the peer plays on this machine reaches it and is not captured again.
pub proof fn law_played_input_is_not_captured(t: TapState, e: TapEvent, w: i32, h: i32)
    requires
        !t.blocked,
        e.marker == RUISS_EVENT_MARKER,
        !is_disabled(e.kind),
    ensures
        hid_verdict(t, e, w, h) == (TapVerdict {
            enable: false,
            track: false,
            send: None,
            drop: false,
        }),
        session_verdict(t, e, w, h) == hid_verdict(t, e, w, h),
{
}

/// An event that both taps see is sent once: what the first tap lets through it has
/// not sent, except for movements, which the second tap does not see.
pub proof fn law_events_are_sent_once(t: TapState, e: TapEvent, w: i32, h: i32)
    requires
        !is_move(e.kind),
    ensures
        hid_verdict(t, e, w, h).send is Some ==> hid_verdict(t, e, w, h).drop,
{
}

/// What each event of the mouse says: the place where it is, or which button went down or
/// up, the left one being 0, the right one 1 and any other 2, or how far the wheel was
/// turned.
pub proof fn law_what_mouse_events_say(e: TapEvent, w: i32, h: i32)
    ensures
        e.kind is MouseMoved || e.kind is LeftMouseDragged || e.kind is RightMouseDragged || e.kind
            is OtherMouseDragged ==> payload_of(e, w, h) == Some(
            Payload::MouseMove { x: e.x, y: e.y, src_w: w as u32, src_h: h as u32 },
        ),
        e.kind is LeftMouseDown ==> payload_of(e, w, h) == Some(
            Payload::MouseButton { button: 0, down: true },
        ),
        e.kind is LeftMouseUp ==> payload_of(e, w, h) == Some(
            Payload::MouseButton { button: 0, down: false },
        ),
        e.kind is RightMouseDown ==> payload_of(e, w, h) == Some(
            Payload::MouseButton { button: 1, down: true },
        ),
        e.kind is RightMouseUp ==> payload_of(e, w, h) == Some(
            Payload::MouseButton { button: 1, down: false },
        ),
        e.kind is OtherMouseDown ==> payload_of(e, w, h) == Some(
            Payload::MouseButton { button: 2, down: true },
        ),
        e.kind is OtherMouseUp ==> payload_of(e, w, h) == Some(
            Payload::MouseButton { button: 2, down: false },
        ),
        e.kind is ScrollWheel && -0x8000_0000 <= e.scroll_x <= 0x7FFF_FFFF && -0x8000_0000
            <= e.scroll_y <= 0x7FFF_FFFF ==> (payload_of(e, w, h) matches Some(
            Payload::MouseWheel { dx, dy },
        ) && dx == e.scroll_x && dy == e.scroll_y),
        e.kind is TapDisabledByTimeout || e.kind is TapDisabledByUserInput || e.kind is Other
            ==> payload_of(e, w, h) is None,
{
}

/// What each event of the keyboard says: which key went down or up. A key that repeats
/// itself says nothing. A modifier is down while its flag is set.
pub proof fn law_what_key_events_say(e: TapEvent, w: i32, h: i32)
    requires
        0 <= e.keycode <= 0xFFFF,
    ensures
        e.kind is KeyDown && e.autorepeat == 0 ==> payload_of(e, w, h) == Some(
            Payload::Key {
                key: key_of_cg(e.keycode as u16),
                scan: 0,
                extended: false,
                down: true,
            },
        ),
        e.kind is KeyDown && e.autorepeat != 0 ==> payload_of(e, w, h) is None,
        e.kind is KeyUp ==> payload_of(e, w, h) == Some(
            Payload::Key {
                key: key_of_cg(e.keycode as u16),
                scan: 0,
                extended: false,
                down: false,
            },
        ),
        e.kind is FlagsChanged ==> payload_of(e, w, h) == Some(
            Payload::Key {
                key: key_of_cg(e.keycode as u16),
                scan: 0,
                extended: false,
                down: is_modifier_down(key_of_cg(e.keycode as u16), e.flags),
            },
        ),
{
}

/// While this machine controls the peer, a movement is sent as the distance that the mouse
/// moved, if it moved at all, and everything else as what it says.
pub proof fn law_control_sends_distances(t: TapState, e: TapEvent, w: i32, h: i32)
    requires
        t.blocked,
        !t.sink,
        e.marker != RUISS_EVENT_MARKER,
        -0x8000_0000 <= e.dx <= 0x7FFF_FFFF,
        -0x8000_0000 <= e.dy <= 0x7FFF_FFFF,
    ensures
        ({
            let v = hid_verdict(t, e, w, h);
            let moved = e.kind is MouseMoved || e.kind is LeftMouseDragged || e.kind
                is RightMouseDragged || e.kind is OtherMouseDragged;
            let off = e.kind is TapDisabledByTimeout || e.kind is TapDisabledByUserInput;
            &&& moved && (e.dx != 0 || e.dy != 0) ==> v.send == Some(
                Payload::MouseMoveRelative { dx: e.dx as i32, dy: e.dy as i32 },
            )
            &&& moved && e.dx == 0 && e.dy == 0 ==> v.send is None
            &&& !moved && !off ==> v.send == payload_of(e, w, h)
            &&& v.drop && !v.track
        }),
{
}

/// While the peer controls this machine, local movements are only followed, to see whether
/// control is taken back; clicks and keys are not sent by the first tap.
pub proof fn law_controlled_machine_follows_its_mouse(t: TapState, e: TapEvent, w: i32, h: i32)
    requires
        t.sink,
        !t.blocked,
        e.marker != RUISS_EVENT_MARKER,
    ensures
        ({
            let v = hid_verdict(t, e, w, h);
            let moved = e.kind is MouseMoved || e.kind is LeftMouseDragged || e.kind
                is RightMouseDragged || e.kind is OtherMouseDragged;
            &&& v.track <==> moved
            &&& v.send is None
            &&& v.drop
        }),
{
}

/// While neither controls the other, everything reaches this machine; the first tap sends
/// where the mouse is, and the second what the rest says.
pub proof fn law_free_machine_keeps_its_input(t: TapState, e: TapEvent, w: i32, h: i32)
    requires
        !t.sink,
        !t.blocked,
        e.marker != RUISS_EVENT_MARKER,
        !(e.kind is TapDisabledByTimeout),
        !(e.kind is TapDisabledByUserInput),
    ensures
        ({
            let first = hid_verdict(t, e, w, h);
            let second = session_verdict(t, e, w, h);
            let moved = e.kind is MouseMoved || e.kind is LeftMouseDragged || e.kind
                is RightMouseDragged || e.kind is OtherMouseDragged;
            &&& !first.drop && !second.drop
            &&& !first.track && !first.enable && !second.enable
            &&& moved ==> first.send == payload_of(e, w, h)
            &&& !moved ==> first.send is None
            &&& second.send == payload_of(e, w, h)
        }),
{
}

/// A tap that was switched off is switched on again, and in no other case; what it was
/// told of goes no further.
pub proof fn law_taps_are_switched_on_again(t: TapState, e: TapEvent, w: i32, h: i32)
    ensures
        ({
            let off = e.kind is TapDisabledByTimeout || e.kind is TapDisabledByUserInput;
            &&& hid_verdict(t, e, w, h).enable <==> off
            &&& session_verdict(t, e, w, h).enable <==> off
            &&& off ==> hid_verdict(t, e, w, h).send is None && session_verdict(t, e, w, h).send
                is None
        }),
{
}

/// What this program played itself is never sent; it is kept from a machine that controls
/// the peer, but for movements at the first tap.
pub proof fn law_own_events_are_never_sent(t: TapState, e: TapEvent, w: i32, h: i32)
    requires
        e.marker == RUISS_EVENT_MARKER,
        !(e.kind is TapDisabledByTimeout),
        !(e.kind is TapDisabledByUserInput),
    ensures
        ({
            let moved = e.kind is MouseMoved || e.kind is LeftMouseDragged || e.kind
                is RightMouseDragged || e.kind is OtherMouseDragged;
            &&& hid_verdict(t, e, w, h).send is None
            &&& !hid_verdict(t, e, w, h).track
            &&& hid_verdict(t, e, w, h).drop <==> t.blocked && !moved
            &&& session_verdict(t, e, w, h).send is None
            &&& session_verdict(t, e, w, h).drop == t.blocked
        }),
{
}

} // verus!
