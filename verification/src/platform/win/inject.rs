//! Playing the peer's input on Windows.

use vstd::prelude::*;

use crate::keys::{exchanged_modifiers, Key, NativeShortcut};
use crate::platform::keyboard::{
    changes, released, KeyPlan, KeyPlanView, KeyboardState, KeyboardView, ModifierChange,
};
use crate::platform::win::codes::{key_to_vk, vk_of_key};
use crate::platform::win::hook::{notches, wheel_turn, WHEEL_NOTCH};
use crate::platform::win::TARGET_IS_MAC;
use crate::protocol::Payload;

verus! {

pub const MOUSEEVENTF_MOVE: u32 = 0x0001;

pub const MOUSEEVENTF_LEFTDOWN: u32 = 0x0002;

pub const MOUSEEVENTF_LEFTUP: u32 = 0x0004;

pub const MOUSEEVENTF_RIGHTDOWN: u32 = 0x0008;

pub const MOUSEEVENTF_RIGHTUP: u32 = 0x0010;

pub const MOUSEEVENTF_MIDDLEDOWN: u32 = 0x0020;

pub const MOUSEEVENTF_MIDDLEUP: u32 = 0x0040;

pub const MOUSEEVENTF_WHEEL: u32 = 0x0800;

pub const MOUSEEVENTF_HWHEEL: u32 = 0x1000;

/// A movement to an absolute position.
pub const MOVE_ABSOLUTE: u32 = 0x8001;

pub const KEYEVENTF_EXTENDEDKEY: u32 = 1;

pub const KEYEVENTF_KEYUP: u32 = 2;

/// One event as the system takes it.
#[derive(Debug, Clone, Copy, PartialEq, Eq, Structural)]
pub enum WinInput {
    Mouse { dx: i32, dy: i32, data: u32, flags: u32 },
    Key { vk: u16, scan: u16, flags: u32 },
}

/// `v` of `0 .. extent`, kept inside, as a fraction of 65535, rounded to the
/// nearest.
pub open spec fn absolute(v: int, extent: int) -> int
    recommends
        extent > 0,
{
    let inside = if v < 0 {
        0
    } else if v >= extent {
        extent - 1
    } else {
        v
    };
    (2 * inside * 65535 + extent) / (2 * extent)
}

fn to_absolute(v: i32, extent: i32) -> (r: i32)
    requires
        extent > 0,
    ensures
        r == absolute(v as int, extent as int),
        0 <= r <= 65535,
{
    let inside: i64 = if v < 0 {
        0
    } else if v >= extent {
        (extent - 1) as i64
    } else {
        v as i64
    };
    let e: i64 = extent as i64;
    let n: i64 = 2 * inside * 65535 + e;
    let q: i64 = n / (2 * e);
    proof {
        lemma_absolute_fits(inside as int, e as int);
    }
    q as i32
}

proof fn lemma_absolute_fits(inside: int, e: int)
    by (nonlinear_arith)
    requires
        0 <= inside < e,
    ensures
        0 <= (2 * inside * 65535 + e) / (2 * e) <= 65535,
{
    assert(2 * inside * 65535 + e <= (2 * e) * 65535 + (2 * e) - 1);
}

/// What moves the mouse to `(x, y)` of a screen of `w` by `h` pixels.
pub open spec fn move_to(x: int, y: int, w: int, h: int) -> Seq<WinInput> {
    if w == 0 || h == 0 {
        Seq::empty()
    } else {
        seq![
            WinInput::Mouse {
                dx: absolute(x, w) as i32,
                dy: absolute(y, h) as i32,
                data: 0,
                flags: MOVE_ABSOLUTE,
            },
        ]
    }
}

/// What moves the mouse to `(x, y)` of a screen of `w` by `h` pixels.
pub fn mouse_move_inputs(x: i32, y: i32, w: i32, h: i32) -> (inputs: Vec<WinInput>)
    requires
        w >= 0,
        h >= 0,
    ensures
        inputs@ == move_to(x as int, y as int, w as int, h as int),
{
    let mut out: Vec<WinInput> = Vec::new();
    if w != 0 && h != 0 {
        let dx: i32 = to_absolute(x, w);
        let dy: i32 = to_absolute(y, h);
        out.push(WinInput::Mouse { dx, dy, data: 0, flags: MOVE_ABSOLUTE });
    }
    out
}

/// What moves the mouse by `(dx, dy)`.
pub open spec fn move_by(dx: i32, dy: i32) -> Seq<WinInput> {
    if dx == 0 && dy == 0 {
        Seq::empty()
    } else {
        seq![WinInput::Mouse { dx, dy, data: 0, flags: MOUSEEVENTF_MOVE }]
    }
}

/// What moves the mouse by `(dx, dy)`.
pub fn mouse_move_relative_inputs(dx: i32, dy: i32) -> (inputs: Vec<WinInput>)
    ensures
        inputs@ == move_by(dx, dy),
{
    let mut out: Vec<WinInput> = Vec::new();
    if dx != 0 || dy != 0 {
        out.push(WinInput::Mouse { dx, dy, data: 0, flags: MOUSEEVENTF_MOVE });
    }
    out
}

/// What presses a button or lets it go; the side buttons cannot be played.
pub open spec fn button(id: u8, down: bool) -> Seq<WinInput> {
    let flags = if id == 0 {
        if down { MOUSEEVENTF_LEFTDOWN } else { MOUSEEVENTF_LEFTUP }
    } else if id == 1 {
        if down { MOUSEEVENTF_RIGHTDOWN } else { MOUSEEVENTF_RIGHTUP }
    } else {
        if down { MOUSEEVENTF_MIDDLEDOWN } else { MOUSEEVENTF_MIDDLEUP }
    };
    if id <= 2 {
        seq![WinInput::Mouse { dx: 0, dy: 0, data: 0, flags }]
    } else {
        Seq::empty()
    }
}

/// What presses a button or lets it go.
pub fn mouse_button_inputs(id: u8, down: bool) -> (inputs: Vec<WinInput>)
    ensures
        inputs@ == button(id, down),
{
    let mut out: Vec<WinInput> = Vec::new();
    let flags: u32 = match (id, down) {
        (0, true) => MOUSEEVENTF_LEFTDOWN,
        (0, false) => MOUSEEVENTF_LEFTUP,
        (1, true) => MOUSEEVENTF_RIGHTDOWN,
        (1, false) => MOUSEEVENTF_RIGHTUP,
        (2, true) => MOUSEEVENTF_MIDDLEDOWN,
        (2, false) => MOUSEEVENTF_MIDDLEUP,
        _ => {
            return out;
        },
    };
    out.push(WinInput::Mouse { dx: 0, dy: 0, data: 0, flags });
    out
}

/// Notches as the system takes them: the turn in the high half.
pub open spec fn turn_data(clicks: int) -> int {
    ((clicks * WHEEL_NOTCH) % 0x1_0000) * 0x1_0000
}

fn to_turn_data(clicks: i32) -> (data: u32)
    ensures
        data == turn_data(clicks as int),
{
    let turn: i64 = clicks as i64 * 120;
    assert(WHEEL_NOTCH == 120);
    let rest: i64 = turn % 0x1_0000;
    let low: i64 = if rest < 0 { rest + 0x1_0000 } else { rest };
    proof {
        let t = turn as int;
        if t < 0 {
            assert(rest as int == -((-t) % 0x1_0000)) by {
                vstd::arithmetic::div_mod::lemma_fundamental_div_mod(-t, 0x1_0000);
            }
            vstd::arithmetic::div_mod::lemma_fundamental_div_mod(-t, 0x1_0000);
            vstd::arithmetic::div_mod::lemma_fundamental_div_mod(t, 0x1_0000);
        }
    }
    (low * 0x1_0000) as u32
}

/// What turns the wheel: up and down first, then sideways.
pub open spec fn turn(dx: i32, dy: i32) -> Seq<WinInput> {
    let v = if dy == 0 {
        Seq::<WinInput>::empty()
    } else {
        seq![
            WinInput::Mouse {
                dx: 0,
                dy: 0,
                data: turn_data(dy as int) as u32,
                flags: MOUSEEVENTF_WHEEL,
            },
        ]
    };
    if dx == 0 {
        v
    } else {
        v.push(
            WinInput::Mouse {
                dx: 0,
                dy: 0,
                data: turn_data(dx as int) as u32,
                flags: MOUSEEVENTF_HWHEEL,
            },
        )
    }
}

/// What turns the wheel.
pub fn mouse_wheel_inputs(dx: i32, dy: i32) -> (inputs: Vec<WinInput>)
    ensures
        inputs@ == turn(dx, dy),
{
    let mut out: Vec<WinInput> = Vec::new();
    if dy != 0 {
        let data: u32 = to_turn_data(dy);
        out.push(WinInput::Mouse { dx: 0, dy: 0, data, flags: MOUSEEVENTF_WHEEL });
    }
    if dx != 0 {
        let data: u32 = to_turn_data(dx);
        out.push(WinInput::Mouse { dx: 0, dy: 0, data, flags: MOUSEEVENTF_HWHEEL });
    }
    out
}

/// A key as the system takes it.
pub open spec fn key_event(key: Key, scan: u16, extended: bool, down: bool) -> WinInput {
    let ext: u32 = if extended { KEYEVENTF_EXTENDEDKEY } else { 0 };
    let up: u32 = if down { 0 } else { KEYEVENTF_KEYUP };
    WinInput::Key { vk: (vk_of_key(key) % 0x1_0000) as u16, scan, flags: (ext + up) as u32 }
}

/// What presses a key or lets it go; a key without a code cannot be played.
pub open spec fn key(key: Key, scan: u16, extended: bool, down: bool) -> Seq<WinInput> {
    if vk_of_key(key) == 0 {
        Seq::empty()
    } else {
        seq![key_event(key, scan, extended, down)]
    }
}

fn to_key_event(key: Key, scan: u16, extended: bool, down: bool) -> (e: WinInput)
    ensures
        e == key_event(key, scan, extended, down),
{
    let ext: u32 = if extended { KEYEVENTF_EXTENDEDKEY } else { 0 };
    let up: u32 = if down { 0 } else { KEYEVENTF_KEYUP };
    WinInput::Key { vk: (key_to_vk(key) % 0x1_0000) as u16, scan, flags: ext + up }
}

/// What presses a key or lets it go.
pub fn key_inputs(key: Key, scan: u16, extended: bool, down: bool) -> (inputs: Vec<WinInput>)
    ensures
        inputs@ == self::key(key, scan, extended, down),
{
    let mut out: Vec<WinInput> = Vec::new();
    if key_to_vk(key) != 0 {
        out.push(to_key_event(key, scan, extended, down));
    }
    out
}

/// What changes modifiers.
pub open spec fn modifiers(cs: Seq<ModifierChange>) -> Seq<WinInput> {
    cs.map_values(|c: ModifierChange| key_event(c.key, 0, false, c.down))
}

fn push_modifiers(out: &mut Vec<WinInput>, cs: &Vec<ModifierChange>)
    ensures
        final(out)@ == old(out)@ + modifiers(cs@),
{
    let ghost start = out@;
    let n: usize = cs.len();
    let mut i: usize = 0;
    while i < n
        invariant
            n == cs@.len(),
            i <= n,
            out@ == start + modifiers(cs@.take(i as int)),
        decreases n - i,
    {
        out.push(to_key_event(cs[i].key, 0, false, cs[i].down));
        i += 1;
        assert(out@ =~= start + modifiers(cs@.take(i as int)));
    }
    assert(cs@.take(n as int) =~= cs@);
}

/// The releases of some keys.
pub open spec fn key_ups(keys: Seq<Key>) -> Seq<WinInput>
    decreases keys.len(),
{
    if keys.len() == 0 {
        Seq::empty()
    } else {
        key_ups(keys.drop_last()) + key(keys.last(), 0, false, false)
    }
}

/// What is played for a key of the peer. A key that was translated is played by
/// its own code, not by the place that it has on the peer's keyboard.
pub open spec fn played_key(
    plan: KeyPlanView,
    pressed: Key,
    scan: u16,
    extended: bool,
    down: bool,
) -> Seq<WinInput> {
    let middle = match plan.stroke {
        Some(stroke) => if stroke.key == pressed {
            key(stroke.key, scan, extended, down)
        } else {
            key(stroke.key, 0, false, down)
        },
        None => Seq::empty(),
    };
    modifiers(plan.before) + middle + modifiers(plan.after)
}

/// What the playing of input looks like.
pub struct InjectorView {
    pub keyboard: KeyboardView,
    /// The button that was pressed last and not let go.
    pub held: Option<u8>,
    /// Where the mouse was put last.
    pub last: Option<(i32, i32)>,
}

impl InjectorView {
    /// Brings the modifiers in line with the peer's.
    pub open spec fn pointer_changes(self) -> Seq<ModifierChange> {
        changes(self.keyboard.applied, exchanged_modifiers(self.keyboard.source))
    }

    pub open spec fn after(self, event: Payload) -> Self {
        let synced = KeyboardView {
            applied: exchanged_modifiers(self.keyboard.source),
            ..self.keyboard
        };
        match event {
            Payload::MouseMove { x, y, .. } => InjectorView { last: Some((x, y)), ..self },
            Payload::MouseButton { button, down } => InjectorView {
                keyboard: synced,
                held: if down {
                    Some(button)
                } else {
                    None
                },
                ..self
            },
            Payload::MouseWheel { .. } => InjectorView { keyboard: synced, ..self },
            Payload::Key { key, down, .. } => InjectorView {
                keyboard: self.keyboard.after_key(TARGET_IS_MAC, key, down),
                ..self
            },
            Payload::Shortcut { .. } => InjectorView { keyboard: synced, ..self },
            _ => self,
        }
    }

    /// What is played for an event.
    pub open spec fn inputs(self, event: Payload, w: int, h: int) -> Seq<WinInput> {
        match event {
            Payload::MouseMove { x, y, .. } => move_to(x as int, y as int, w, h),
            Payload::MouseMoveRelative { dx, dy } => move_by(dx, dy),
            Payload::MouseButton { button, down } => modifiers(self.pointer_changes())
                + self::button(button, down),
            Payload::MouseWheel { dx, dy } => modifiers(self.pointer_changes()) + turn(dx, dy),
            Payload::Key { key, scan, extended, down } => played_key(
                self.keyboard.key_plan(TARGET_IS_MAC, key, down),
                key,
                scan,
                extended,
                down,
            ),
            Payload::Shortcut { shortcut } => modifiers(
                changes(self.keyboard.applied, shortcut.modifiers),
            ) + key(shortcut.key, 0, false, true) + key(shortcut.key, 0, false, false) + modifiers(
                changes(shortcut.modifiers, exchanged_modifiers(self.keyboard.source)),
            ),
            _ => Seq::empty(),
        }
    }

    /// What lets go of everything, when `keys` are down.
    pub open spec fn releases(self, keys: Seq<Key>) -> Seq<WinInput> {
        key_ups(keys) + match self.held {
            Some(id) => button(id, false),
            None => Seq::empty(),
        } + key(Key::Ctrl, 0, false, false) + key(Key::Alt, 0, false, false) + key(
            Key::Shift,
            0,
            false,
            false,
        ) + key(Key::Super, 0, false, false)
    }
}

/// Plays the peer's input.
pub struct InputInjector {
    keyboard: KeyboardState,
    held: Option<u8>,
    last: Option<(i32, i32)>,
}

impl View for InputInjector {
    type V = InjectorView;

    closed spec fn view(&self) -> InjectorView {
        InjectorView { keyboard: self.keyboard@, held: self.held, last: self.last }
    }
}

impl InputInjector {
    pub closed spec fn wf(&self) -> bool {
        self.keyboard.wf()
    }

    /// Nothing is down, and the mouse was not moved yet.
    pub fn new() -> (i: Self)
        ensures
            i.wf(),
            i@ == (InjectorView { keyboard: KeyboardView::initial(), held: None, last: None }),
    {
        InputInjector { keyboard: KeyboardState::new(), held: None, last: None }
    }

    /// The events to hand to the system for one event of the peer, on a screen of
    /// `w` by `h` pixels.
    pub fn inject(&mut self, event: &Payload, w: i32, h: i32) -> (inputs: Vec<WinInput>)
        requires
            old(self).wf(),
            w >= 0,
            h >= 0,
        ensures
            final(self).wf(),
            final(self)@ == old(self)@.after(*event),
            inputs@ == old(self)@.inputs(*event, w as int, h as int),
    {
        match event {
            Payload::MouseMove { x, y, .. } => {
                self.last = Some((*x, *y));
                mouse_move_inputs(*x, *y, w, h)
            },
            Payload::MouseMoveRelative { dx, dy } => mouse_move_relative_inputs(*dx, *dy),
            Payload::MouseButton { button, down } => {
                self.held = if *down {
                    Some(*button)
                } else {
                    None
                };
                let cs = self.keyboard.sync_for_pointer(TARGET_IS_MAC);
                let mut out: Vec<WinInput> = Vec::new();
                push_modifiers(&mut out, &cs);
                out.append(&mut mouse_button_inputs(*button, *down));
                out
            },
            Payload::MouseWheel { dx, dy } => {
                let cs = self.keyboard.sync_for_pointer(TARGET_IS_MAC);
                let mut out: Vec<WinInput> = Vec::new();
                push_modifiers(&mut out, &cs);
                out.append(&mut mouse_wheel_inputs(*dx, *dy));
                out
            },
            Payload::Key { key, scan, extended, down } => {
                let plan = self.keyboard.on_key(TARGET_IS_MAC, *key, *down);
                self.play_plan(&plan, *key, *scan, *extended, *down)
            },
            Payload::Shortcut { shortcut } => {
                let (before, after) = self.keyboard.on_shortcut(TARGET_IS_MAC, *shortcut);
                let mut out: Vec<WinInput> = Vec::new();
                push_modifiers(&mut out, &before);
                out.append(&mut key_inputs(shortcut.key, 0, false, true));
                out.append(&mut key_inputs(shortcut.key, 0, false, false));
                push_modifiers(&mut out, &after);
                out
            },
            _ => Vec::new(),
        }
    }

    fn play_plan(&self, plan: &KeyPlan, key: Key, scan: u16, extended: bool, down: bool) -> (out:
        Vec<WinInput>)
        ensures
            out@ == played_key(plan@, key, scan, extended, down),
    {
        let mut out: Vec<WinInput> = Vec::new();
        push_modifiers(&mut out, &plan.before);
        match plan.stroke {
            Some(stroke) => {
                if stroke.key == key {
                    out.append(&mut key_inputs(stroke.key, scan, extended, down));
                } else {
                    out.append(&mut key_inputs(stroke.key, 0, false, down));
                }
            },
            None => {},
        }
        push_modifiers(&mut out, &plan.after);
        out
    }

    /// The system took `sent` events that moved the mouse by a distance, and the
    /// cursor is now at `position`.
    pub fn moved(&mut self, sent: u32, position: Option<(i32, i32)>)
        requires
            old(self).wf(),
        ensures
            final(self).wf(),
            final(self)@ == (InjectorView {
                last: if sent > 0 && position is Some {
                    position
                } else {
                    old(self)@.last
                },
                ..old(self)@
            }),
    {
        if sent > 0 {
            match position {
                Some(p) => {
                    self.last = Some(p);
                },
                None => {},
            }
        }
    }

    /// Lets go of everything that the peer holds down, when control changes hands
    /// unexpectedly: the keys, the button, and every modifier.
    pub fn reset_keyboard_state(&mut self) -> (inputs: Vec<WinInput>)
        requires
            old(self).wf(),
        ensures
            final(self).wf(),
            final(self)@ == (InjectorView {
                keyboard: KeyboardView::initial(),
                held: None,
                last: old(self)@.last,
            }),
            exists|keys: Seq<Key>| #[trigger]
                released(old(self)@.keyboard.active, keys) && inputs@ == old(self)@.releases(keys),
    {
        let keys = self.keyboard.reset();
        let held = self.held;
        self.held = None;
        let mut out: Vec<WinInput> = Vec::new();
        let n: usize = keys.len();
        let mut i: usize = 0;
        while i < n
            invariant
                n == keys@.len(),
                i <= n,
                out@ == key_ups(keys@.take(i as int)),
            decreases n - i,
        {
            out.append(&mut key_inputs(keys[i], 0, false, false));
            i += 1;
            assert(keys@.take(i as int).drop_last() =~= keys@.take(i - 1));
        }
        assert(keys@.take(n as int) =~= keys@);
        match held {
            Some(id) => {
                out.append(&mut mouse_button_inputs(id, false));
            },
            None => {},
        }
        out.append(&mut key_inputs(Key::Ctrl, 0, false, false));
        out.append(&mut key_inputs(Key::Alt, 0, false, false));
        out.append(&mut key_inputs(Key::Shift, 0, false, false));
        out.append(&mut key_inputs(Key::Super, 0, false, false));
        assert(released(old(self)@.keyboard.active, keys@));
        assert(out@ =~= old(self)@.releases(keys@));
        out
    }
}

/// Where the mouse was put last; `None` before it was moved.
pub fn last_injected_pos(injector: &InputInjector) -> (p: Option<(i32, i32)>)
    ensures
        p == injector@.last,
{
    injector.last
}

/// Positions keep their order and stay within the range that the system takes, on
/// the left edge exactly at its start.
pub proof fn law_absolute_positions_keep_order(v1: int, v2: int, extent: int)
    requires
        extent > 0,
        v1 <= v2,
    ensures
        0 <= absolute(v1, extent) <= absolute(v2, extent) <= 65535,
        v1 <= 0 ==> absolute(v1, extent) == 0,
{
    let i1 = if v1 < 0 {
        0
    } else if v1 >= extent {
        extent - 1
    } else {
        v1
    };
    let i2 = if v2 < 0 {
        0
    } else if v2 >= extent {
        extent - 1
    } else {
        v2
    };
    lemma_absolute_fits(i1, extent);
    lemma_absolute_fits(i2, extent);
    assert(2 * i1 * 65535 + extent <= 2 * i2 * 65535 + extent) by (nonlinear_arith)
        requires
            i1 <= i2,
    ;
    vstd::arithmetic::div_mod::lemma_div_is_ordered(
        2 * i1 * 65535 + extent,
        2 * i2 * 65535 + extent,
        2 * extent,
    );
    if v1 <= 0 {
        assert(extent / (2 * extent) == 0) by (nonlinear_arith)
            requires
                extent > 0,
        ;
    }
}

/// The notches that are played are the notches that a hook on this system reads,
/// whatever was left over there, as far as one message can say them.
pub proof fn law_played_notches_are_read_back(clicks: int, left: int)
    requires
        -0x8000 <= clicks * WHEEL_NOTCH < 0x8000,
    ensures
        notches(turn_data(clicks) as u32, left) == (clicks, left),
{
    let t = clicks * WHEEL_NOTCH;
    let d = turn_data(clicks) as u32;
    assert(t % 0x1_0000 == if t < 0 { t + 0x1_0000 } else { t });
    assert(wheel_turn(d) == t);
    assert(t % (WHEEL_NOTCH as int) == 0) by (nonlinear_arith)
        requires
            t == clicks * 120,
            WHEEL_NOTCH == 120,
    ;
    assert(t / (WHEEL_NOTCH as int) == clicks) by (nonlinear_arith)
        requires
            t == clicks * 120,
            WHEEL_NOTCH == 120,
    ;
}

/// A place on the screen becomes the nearest place on a scale from 0 to 65535 that spans
/// it; what lies outside counts as the edge.
pub proof fn law_positions_are_rounded_to_the_nearest(v: int, extent: int)
    requires
        extent > 0,
    ensures
        0 <= v < extent ==> -extent <= 2 * (absolute(v, extent) * extent - v * 65535) <= extent,
        v < 0 ==> absolute(v, extent) == absolute(0, extent),
        v >= extent ==> absolute(v, extent) == absolute(extent - 1, extent),
{
    if 0 <= v < extent {
        let n = 2 * v * 65535 + extent;
        let q = n / (2 * extent);
        vstd::arithmetic::div_mod::lemma_fundamental_div_mod(n, 2 * extent);
        assert(0 <= n % (2 * extent) < 2 * extent);
        assert((2 * extent) * q == 2 * (q * extent)) by (nonlinear_arith);
        assert(2 * v * 65535 == 2 * (v * 65535)) by (nonlinear_arith);
    }
}

/// The mouse is moved to a place by one absolute movement, and by a distance by one
/// relative movement, if there is one.
pub proof fn law_how_the_mouse_is_moved(x: int, y: int, w: int, h: int, dx: i32, dy: i32)
    requires
        w >= 0,
        h >= 0,
    ensures
        w > 0 && h > 0 ==> move_to(x, y, w, h) == seq![
            WinInput::Mouse {
                dx: absolute(x, w) as i32,
                dy: absolute(y, h) as i32,
                data: 0,
                flags: 0x8001,
            },
        ],
        w == 0 || h == 0 ==> move_to(x, y, w, h).len() == 0,
        dx != 0 || dy != 0 ==> move_by(dx, dy) == seq![WinInput::Mouse { dx, dy, data: 0, flags: 1 }],
        dx == 0 && dy == 0 ==> move_by(dx, dy).len() == 0,
{
}

/// Each button has its own flags for going down and up; the side buttons have none.
pub proof fn law_how_buttons_are_pressed(id: u8)
    ensures
        button(0, true) == seq![WinInput::Mouse { dx: 0, dy: 0, data: 0, flags: 0x02 }],
        button(0, false) == seq![WinInput::Mouse { dx: 0, dy: 0, data: 0, flags: 0x04 }],
        button(1, true) == seq![WinInput::Mouse { dx: 0, dy: 0, data: 0, flags: 0x08 }],
        button(1, false) == seq![WinInput::Mouse { dx: 0, dy: 0, data: 0, flags: 0x10 }],
        button(2, true) == seq![WinInput::Mouse { dx: 0, dy: 0, data: 0, flags: 0x20 }],
        button(2, false) == seq![WinInput::Mouse { dx: 0, dy: 0, data: 0, flags: 0x40 }],
        id > 2 ==> button(id, true).len() == 0 && button(id, false).len() == 0,
{
}

/// The wheel is turned up and down by one event and sideways by another, where there is
/// anything to turn; each carries 120 for a notch, as a signed number in its high half.
pub proof fn law_how_the_wheel_is_turned(dx: i32, dy: i32)
    requires
        -273 <= dx <= 273,
        -273 <= dy <= 273,
    ensures
        ({
            let up = if dy < 0 {
                120 * dy + 0x1_0000
            } else {
                120 * dy
            };
            let side = if dx < 0 {
                120 * dx + 0x1_0000
            } else {
                120 * dx
            };
            let v = WinInput::Mouse { dx: 0, dy: 0, data: (up * 0x1_0000) as u32, flags: 0x0800 };
            let s = WinInput::Mouse { dx: 0, dy: 0, data: (side * 0x1_0000) as u32, flags: 0x1000 };
            &&& dx == 0 && dy == 0 ==> turn(dx, dy).len() == 0
            &&& dx == 0 && dy != 0 ==> turn(dx, dy) == seq![v]
            &&& dx != 0 && dy == 0 ==> turn(dx, dy) == seq![s]
            &&& dx != 0 && dy != 0 ==> turn(dx, dy) == seq![v, s]
        }),
{
    assert((dx * 120) % 0x1_0000 == if dx < 0 { 120 * dx + 0x1_0000 } else { 120 * dx });
    assert((dy * 120) % 0x1_0000 == if dy < 0 { 120 * dy + 0x1_0000 } else { 120 * dy });
}

/// A key goes down and up with its own code, the place that it has on the keyboard and its
/// flags: one for keys that are extended, two for going up.
pub proof fn law_how_keys_are_pressed(k: Key, scan: u16, extended: bool, down: bool)
    requires
        vk_of_key(k) < 0x1_0000,
    ensures
        vk_of_key(k) == 0 ==> key(k, scan, extended, down).len() == 0,
        vk_of_key(k) != 0 ==> key(k, scan, extended, down).len() == 1 && (key(
            k,
            scan,
            extended,
            down,
        )[0] matches WinInput::Key { vk, scan: s, flags } && vk == vk_of_key(k) && s == scan && (
        extended && down ==> flags == 1) && (extended && !down ==> flags == 3) && (!extended && down
            ==> flags == 0) && (!extended && !down ==> flags == 2)),
{
}

/// A change of modifiers is one event with the code of its key.
pub proof fn law_how_modifiers_are_changed(cs: Seq<ModifierChange>, i: int)
    requires
        0 <= i < cs.len(),
        vk_of_key(cs[i].key) < 0x1_0000,
    ensures
        modifiers(cs).len() == cs.len(),
        modifiers(cs)[i] matches WinInput::Key { vk, scan, flags } && vk == vk_of_key(cs[i].key)
            && scan == 0 && (cs[i].down ==> flags == 0) && (!cs[i].down ==> flags == 2),
{
}

/// What is remembered after an event: where the mouse was put, which button is held until
/// one goes up, and the keyboard. A distance is remembered only when the system has moved
/// the mouse.
pub proof fn law_what_is_remembered(i: InjectorView, event: Payload)
    ensures
        event matches Payload::MouseMove { x, y, .. } ==> i.after(event).last == Some((x, y))
            && i.after(event).held == i.held && i.after(event).keyboard == i.keyboard,
        event is MouseMoveRelative ==> i.after(event) == i,
        event matches Payload::MouseButton { button, down } ==> {
            &&& down ==> i.after(event).held == Some(button)
            &&& !down ==> i.after(event).held is None
            &&& i.after(event).last == i.last
            &&& i.after(event).keyboard.source == i.keyboard.source
            &&& i.after(event).keyboard.applied == exchanged_modifiers(i.keyboard.source)
            &&& i.after(event).keyboard.active == i.keyboard.active
        },
        event is MouseWheel || event is Shortcut ==> {
            &&& i.after(event).held == i.held
            &&& i.after(event).last == i.last
            &&& i.after(event).keyboard.source == i.keyboard.source
            &&& i.after(event).keyboard.applied == exchanged_modifiers(i.keyboard.source)
            &&& i.after(event).keyboard.active == i.keyboard.active
        },
        event matches Payload::Key { key, down, .. } ==> {
            &&& i.after(event).keyboard == i.keyboard.after_key(false, key, down)
            &&& i.after(event).held == i.held
            &&& i.after(event).last == i.last
        },
{
}

/// What is played for the mouse: movements as they are, and clicks and turns behind the
/// changes that bring the modifiers in line with the peer's.
pub proof fn law_what_is_played_for_the_mouse(i: InjectorView, event: Payload, w: int, h: int)
    ensures
        ({
            let synced = modifiers(
                changes(i.keyboard.applied, exchanged_modifiers(i.keyboard.source)),
            );
            &&& event matches Payload::MouseMove { x, y, .. } ==> i.inputs(event, w, h) == move_to(
                x as int,
                y as int,
                w,
                h,
            )
            &&& event matches Payload::MouseMoveRelative { dx, dy } ==> i.inputs(event, w, h)
                == move_by(dx, dy)
            &&& event matches Payload::MouseButton { button: b, down } ==> i.inputs(event, w, h)
                == synced + button(b, down)
            &&& event matches Payload::MouseWheel { dx, dy } ==> i.inputs(event, w, h) == synced
                + turn(dx, dy)
        }),
{
}

/// What is played for a key: the key itself between the changes of modifiers that it
/// needs, at its place on the peer's keyboard where it is the key that was pressed, and by
/// its code alone where it was translated.
pub proof fn law_what_is_played_for_a_key(
    plan: KeyPlanView,
    pressed: Key,
    scan: u16,
    extended: bool,
    down: bool,
)
    ensures
        plan.stroke matches Some(stroke) ==> {
            &&& stroke.key == pressed ==> played_key(plan, pressed, scan, extended, down)
                == modifiers(plan.before) + key(pressed, scan, extended, down) + modifiers(
                plan.after,
            )
            &&& stroke.key != pressed ==> played_key(plan, pressed, scan, extended, down)
                == modifiers(plan.before) + key(stroke.key, 0, false, down) + modifiers(plan.after)
        },
        plan.stroke is None ==> played_key(plan, pressed, scan, extended, down) == modifiers(
            plan.before,
        ) + modifiers(plan.after),
{
    if plan.stroke is None {
        assert(played_key(plan, pressed, scan, extended, down) =~= modifiers(plan.before)
            + modifiers(plan.after));
    }
}

/// A whole shortcut is its key pressed and let go with its modifiers, between the changes
/// that lead to them and those that lead back to the peer's.
pub proof fn law_what_is_played_for_a_shortcut(
    i: InjectorView,
    shortcut: NativeShortcut,
    w: int,
    h: int,
)
    ensures
        i.inputs(Payload::Shortcut { shortcut }, w, h) == modifiers(
            changes(i.keyboard.applied, shortcut.modifiers),
        ) + key(shortcut.key, 0, false, true) + key(shortcut.key, 0, false, false) + modifiers(
            changes(shortcut.modifiers, exchanged_modifiers(i.keyboard.source)),
        ),
{
}

/// Letting go of everything lets go of every key, of the button that is held, and of every
/// modifier.
pub proof fn law_everything_is_let_go(i: InjectorView, keys: Seq<Key>, last: Key)
    ensures
        key_ups(Seq::empty()).len() == 0,
        key_ups(keys.push(last)) == key_ups(keys) + key(last, 0, false, false),
        i.held is None ==> i.releases(keys) == key_ups(keys) + key(Key::Ctrl, 0, false, false)
            + key(Key::Alt, 0, false, false) + key(Key::Shift, 0, false, false) + key(
            Key::Super,
            0,
            false,
            false,
        ),
        i.held matches Some(id) ==> i.releases(keys) == key_ups(keys) + button(id, false) + key(
            Key::Ctrl,
            0,
            false,
            false,
        ) + key(Key::Alt, 0, false, false) + key(Key::Shift, 0, false, false) + key(
            Key::Super,
            0,
            false,
            false,
        ),
{
    assert(keys.push(last).drop_last() =~= keys);
    assert(key_ups(keys) + Seq::<WinInput>::empty() =~= key_ups(keys));
}

} // verus!
