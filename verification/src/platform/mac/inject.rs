//! Playing the peer's input on macOS.

use vstd::prelude::*;

use crate::geometry::{low_bits, wrap_i32};
use crate::keys::{exchanged_modifiers, held, Key, ModifierState, NativeShortcut};
use crate::platform::keyboard::{
    changes, modifier_changes, released, KeyboardState, KeyboardView, ModifierChange,
};
use crate::platform::mac::codes::{cg_of_key, flags_of, key_to_cg, mac_event_flags};
use crate::platform::mac::tap::EventKind;
use crate::platform::mac::TARGET_IS_MAC;
use crate::protocol::Payload;

verus! {

/// Two clicks within this time belong together, in nanoseconds.
pub const DOUBLE_CLICK_WINDOW: u64 = 500_000_000;

/// Two clicks that are no further apart than this, in either direction, belong
/// together.
pub const DOUBLE_CLICK_DISTANCE: i32 = 4;

/// What one notch of the wheel scrolls, in pixels.
pub const PIXELS_PER_NOTCH: i32 = 100;

/// One event to post.
#[derive(Debug, Clone, Copy, PartialEq, Eq, Structural)]
pub enum MacPost {
    /// A modifier changed.
    Modifier { code: u16, down: bool, flags: u64 },
    /// The mouse; `clicks` says the how-manieth click in a row it is, where it is a
    /// click of the peer.
    Mouse { kind: EventKind, button: u8, x: i32, y: i32, clicks: Option<u32>, flags: u64 },
    /// The wheel, in pixels.
    Scroll { dx: i32, dy: i32, flags: u64 },
    Key { code: u16, down: bool, flags: u64 },
}

/// The last click.
#[derive(Debug, Clone, Copy)]
pub struct ClickState {
    pub time: u64,
    /// Where it was; `None` before the first click.
    pub place: Option<(i32, i32)>,
    /// The how-manieth click in a row it was.
    pub count: u32,
}

/// Whether two coordinates are close enough for clicks that belong together.
pub open spec fn close(a: int, b: int) -> bool {
    -DOUBLE_CLICK_DISTANCE <= a - b <= DOUBLE_CLICK_DISTANCE
}

impl ClickState {
    pub open spec fn initial() -> Self {
        ClickState { time: 0, place: None, count: 0 }
    }

    /// After a click at `(x, y)`: it counts up when it follows closely, in time and
    /// in place.
    pub open spec fn pressed(self, x: i32, y: i32, now: u64) -> Self {
        let near = self.place matches Some((px, py)) && close(px as int, x as int) && close(
            py as int,
            y as int,
        );
        ClickState {
            time: now,
            place: Some((x, y)),
            count: if now - self.time <= DOUBLE_CLICK_WINDOW && near {
                if self.count == u32::MAX {
                    0
                } else {
                    (self.count + 1) as u32
                }
            } else {
                1
            },
        }
    }

    fn press(&mut self, x: i32, y: i32, now: u64)
        ensures
            *final(self) == old(self).pressed(x, y, now),
    {
        let near: bool = match self.place {
            Some((px, py)) => {
                let dx: i64 = px as i64 - x as i64;
                let dy: i64 = py as i64 - y as i64;
                -4 <= dx && dx <= 4 && -4 <= dy && dy <= 4
            },
            None => false,
        };
        let soon = now < self.time || now - self.time <= DOUBLE_CLICK_WINDOW;
        if soon && near {
            self.count = if self.count == u32::MAX { 0 } else { self.count + 1 };
        } else {
            self.count = 1;
        }
        self.time = now;
        self.place = Some((x, y));
    }
}

/// The kind of a movement while `button` is held.
pub open spec fn move_kind(button: Option<u8>) -> EventKind {
    match button {
        Some(0) => EventKind::LeftMouseDragged,
        Some(1) => EventKind::RightMouseDragged,
        Some(2) => EventKind::OtherMouseDragged,
        _ => EventKind::MouseMoved,
    }
}

/// The button that a movement names while `button` is held.
pub open spec fn move_button(button: Option<u8>) -> u8 {
    match button {
        Some(1) => 1,
        Some(2) => 2,
        _ => 0,
    }
}

/// The kind of a click; there is none for the side buttons.
pub open spec fn click_kind(button: u8, down: bool) -> Option<EventKind> {
    if button == 0 {
        Some(if down { EventKind::LeftMouseDown } else { EventKind::LeftMouseUp })
    } else if button == 1 {
        Some(if down { EventKind::RightMouseDown } else { EventKind::RightMouseUp })
    } else if button == 2 {
        Some(if down { EventKind::OtherMouseDown } else { EventKind::OtherMouseUp })
    } else {
        None
    }
}

fn to_click_kind(button: u8, down: bool) -> (r: Option<EventKind>)
    ensures
        r == click_kind(button, down),
{
    match (button, down) {
        (0, true) => Some(EventKind::LeftMouseDown),
        (0, false) => Some(EventKind::LeftMouseUp),
        (1, true) => Some(EventKind::RightMouseDown),
        (1, false) => Some(EventKind::RightMouseUp),
        (2, true) => Some(EventKind::OtherMouseDown),
        (2, false) => Some(EventKind::OtherMouseUp),
        _ => None,
    }
}

/// What changes modifiers.
pub open spec fn modifiers(cs: Seq<ModifierChange>) -> Seq<MacPost> {
    cs.map_values(
        |c: ModifierChange|
            MacPost::Modifier {
                code: cg_of_key(c.key),
                down: c.down,
                flags: flags_of(c.modifiers),
            },
    )
}

fn push_modifiers(out: &mut Vec<MacPost>, cs: &Vec<ModifierChange>)
    ensures
        final(out)@ == old(out)@ + modifiers(cs@),
{
    let ghost start = out@;
    let n: usize = cs.len();
    let mut i: usize = 0;
    while i < n
        invariant
            n == cs@.len(),
            i <= n,
            out@ == start + modifiers(cs@.take(i as int)),
        decreases n - i,
    {
        let c = cs[i];
        out.push(
            MacPost::Modifier {
                code: key_to_cg(c.key),
                down: c.down,
                flags: mac_event_flags(c.modifiers),
            },
        );
        i += 1;
        assert(out@ =~= start + modifiers(cs@.take(i as int)));
    }
    assert(cs@.take(n as int) =~= cs@);
}

/// Keeps `v` on a screen side of this length.
pub open spec fn on_side(v: int, length: int) -> int {
    let last = if length - 1 > 0 { length - 1 } else { 0 };
    if v < 0 {
        0
    } else if v > last {
        last
    } else {
        v
    }
}

fn keep_on_side(v: i64, length: i32) -> (r: i32)
    ensures
        r == on_side(v as int, length as int),
{
    let last: i64 = if length > 1 { length as i64 - 1 } else { 0 };
    if v < 0 {
        0
    } else if v > last {
        last as i32
    } else {
        v as i32
    }
}

/// What the playing of input looks like.
pub struct InjectorView {
    pub keyboard: KeyboardView,
    pub click: ClickState,
    /// The button that was pressed last and not let go.
    pub held: Option<u8>,
    /// Where the mouse was put last.
    pub last: Option<(i32, i32)>,
}

impl InjectorView {
    /// Where the mouse is: in the corner before it was moved.
    pub open spec fn place(self) -> (i32, i32) {
        match self.last {
            Some(p) => p,
            None => (0, 0),
        }
    }

    /// Brings the modifiers in line with the peer's.
    pub open spec fn pointer_changes(self) -> Seq<ModifierChange> {
        changes(self.keyboard.applied, exchanged_modifiers(self.keyboard.source))
    }

    /// Where the mouse is after a movement, on a screen of `w` by `h` pixels.
    pub open spec fn moved_by(self, dx: i32, dy: i32, w: i32, h: i32) -> (i32, i32) {
        (
            on_side(self.place().0 + dx, w as int) as i32,
            on_side(self.place().1 + dy, h as int) as i32,
        )
    }

    pub open spec fn after(self, event: Payload, w: i32, h: i32, now: u64) -> Self {
        let synced = KeyboardView {
            applied: exchanged_modifiers(self.keyboard.source),
            ..self.keyboard
        };
        match event {
            Payload::MouseMove { x, y, .. } => InjectorView { last: Some((x, y)), ..self },
            Payload::MouseMoveRelative { dx, dy } => InjectorView {
                last: Some(self.moved_by(dx, dy, w, h)),
                ..self
            },
            Payload::MouseButton { button, down } => InjectorView {
                keyboard: synced,
                click: if down && click_kind(button, down) is Some {
                    self.click.pressed(self.place().0, self.place().1, now)
                } else {
                    self.click
                },
                held: if down {
                    Some(button)
                } else {
                    None
                },
                last: self.last,
            },
            Payload::MouseWheel { .. } => InjectorView { keyboard: synced, ..self },
            Payload::Key { key, down, .. } => InjectorView {
                keyboard: self.keyboard.after_key(TARGET_IS_MAC, key, down),
                ..self
            },
            Payload::Shortcut { .. } => InjectorView { keyboard: synced, ..self },
            _ => self,
        }
    }

    /// What is posted for an event.
    pub open spec fn posts(self, event: Payload, w: i32, h: i32, now: u64) -> Seq<MacPost> {
        let flags = flags_of(self.after(event, w, h, now).keyboard.applied);
        match event {
            Payload::MouseMove { x, y, .. } => seq![
                MacPost::Mouse {
                    kind: move_kind(self.held),
                    button: move_button(self.held),
                    x,
                    y,
                    clicks: None,
                    flags,
                },
            ],
            Payload::MouseMoveRelative { dx, dy } => seq![
                MacPost::Mouse {
                    kind: move_kind(self.held),
                    button: move_button(self.held),
                    x: self.moved_by(dx, dy, w, h).0,
                    y: self.moved_by(dx, dy, w, h).1,
                    clicks: None,
                    flags,
                },
            ],
            Payload::MouseButton { button, down } => modifiers(self.pointer_changes()) + (
            match click_kind(button, down) {
                Some(kind) => seq![
                    MacPost::Mouse {
                        kind,
                        button,
                        x: self.place().0,
                        y: self.place().1,
                        clicks: Some(self.after(event, w, h, now).click.count),
                        flags,
                    },
                ],
                None => Seq::empty(),
            }),
            Payload::MouseWheel { dx, dy } => modifiers(self.pointer_changes()).push(
                MacPost::Scroll {
                    dx: wrap_i32(dx * PIXELS_PER_NOTCH) as i32,
                    dy: wrap_i32(dy * PIXELS_PER_NOTCH) as i32,
                    flags,
                },
            ),
            Payload::Key { key, down, .. } => {
                let plan = self.keyboard.key_plan(TARGET_IS_MAC, key, down);
                modifiers(plan.before) + (match plan.stroke {
                    Some(stroke) => seq![
                        MacPost::Key {
                            code: cg_of_key(stroke.key),
                            down,
                            flags: flags_of(stroke.modifiers),
                        },
                    ],
                    None => Seq::empty(),
                }) + modifiers(plan.after)
            },
            Payload::Shortcut { shortcut } => {
                let code = cg_of_key(shortcut.key);
                let with = flags_of(shortcut.modifiers);
                modifiers(changes(self.keyboard.applied, shortcut.modifiers)).push(
                    MacPost::Key { code, down: true, flags: with },
                ).push(MacPost::Key { code, down: false, flags: with }) + modifiers(
                    changes(shortcut.modifiers, exchanged_modifiers(self.keyboard.source)),
                )
            },
            _ => Seq::empty(),
        }
    }

    /// What lets go of everything, when `keys` are down.
    pub open spec fn releases(self, keys: Seq<Key>) -> Seq<MacPost> {
        modifiers(changes(self.keyboard.applied, held(false, false, false, false))) + (
        match self.held {
            Some(button) => match click_kind(button, false) {
                Some(kind) => seq![
                    MacPost::Mouse {
                        kind,
                        button,
                        x: self.place().0,
                        y: self.place().1,
                        clicks: None,
                        flags: 0,
                    },
                ],
                None => Seq::empty(),
            },
            None => Seq::empty(),
        }) + keys.map_values(
            |k: Key| MacPost::Key { code: cg_of_key(k), down: false, flags: 0 },
        ) + seq![
            MacPost::Modifier { code: cg_of_key(Key::Shift), down: false, flags: 0 },
            MacPost::Modifier { code: cg_of_key(Key::Ctrl), down: false, flags: 0 },
            MacPost::Modifier { code: cg_of_key(Key::Alt), down: false, flags: 0 },
            MacPost::Modifier { code: cg_of_key(Key::Super), down: false, flags: 0 },
        ]
    }
}

/// Whether an event counts as played: input does, but for clicks of the side buttons.
pub open spec fn plays(event: Payload) -> bool {
    match event {
        Payload::MouseMove { .. } => true,
        Payload::MouseMoveRelative { .. } => true,
        Payload::MouseButton { button, .. } => button <= 2,
        Payload::MouseWheel { .. } => true,
        Payload::Key { .. } => true,
        Payload::Shortcut { .. } => true,
        _ => false,
    }
}

/// Plays the peer's input.
pub struct InputInjector {
    keyboard: KeyboardState,
    click: ClickState,
    held: Option<u8>,
    last: Option<(i32, i32)>,
}

impl View for InputInjector {
    type V = InjectorView;

    closed spec fn view(&self) -> InjectorView {
        InjectorView {
            keyboard: self.keyboard@,
            click: self.click,
            held: self.held,
            last: self.last,
        }
    }
}

impl InputInjector {
    pub closed spec fn wf(&self) -> bool {
        self.keyboard.wf()
    }

    /// Nothing is down, and the mouse was neither moved nor clicked yet.
    pub fn new() -> (i: Self)
        ensures
            i.wf(),
            i@ == (InjectorView {
                keyboard: KeyboardView::initial(),
                click: ClickState::initial(),
                held: None,
                last: None,
            }),
    {
        InputInjector {
            keyboard: KeyboardState::new(),
            click: ClickState { time: 0, place: None, count: 0 },
            held: None,
            last: None,
        }
    }

    fn place(&self) -> (p: (i32, i32))
        ensures
            p == self@.place(),
    {
        match self.last {
            Some(p) => p,
            None => (0, 0),
        }
    }

    fn move_post(&self, x: i32, y: i32) -> (post: MacPost)
        ensures
            post == (MacPost::Mouse {
                kind: move_kind(self@.held),
                button: move_button(self@.held),
                x,
                y,
                clicks: None,
                flags: flags_of(self@.keyboard.applied),
            }),
    {
        let (kind, button): (EventKind, u8) = match self.held {
            Some(0) => (EventKind::LeftMouseDragged, 0),
            Some(1) => (EventKind::RightMouseDragged, 1),
            Some(2) => (EventKind::OtherMouseDragged, 2),
            _ => (EventKind::MouseMoved, 0),
        };
        let flags: u64 = mac_event_flags(self.keyboard.applied());
        MacPost::Mouse { kind, button, x, y, clicks: None, flags }
    }

    /// The events to post for one event of the peer, on a screen of `w` by `h` pixels
    /// and at the time `now`, and whether it counts as played.
    pub fn inject(&mut self, event: &Payload, w: i32, h: i32, now: u64) -> (r: (
        Vec<MacPost>,
        bool,
    ))
        requires
            old(self).wf(),
        ensures
            final(self).wf(),
            final(self)@ == old(self)@.after(*event, w, h, now),
            r.0@ == old(self)@.posts(*event, w, h, now),
            r.1 == plays(*event),
    {
        let mut out: Vec<MacPost> = Vec::new();
        match event {
            Payload::MouseMove { x, y, .. } => {
                self.last = Some((*x, *y));
                out.push(self.move_post(*x, *y));
                assert(out@ =~= old(self)@.posts(*event, w, h, now));
                (out, true)
            },
            Payload::MouseMoveRelative { dx, dy } => {
                let (px, py) = self.place();
                let x: i32 = keep_on_side(px as i64 + *dx as i64, w);
                let y: i32 = keep_on_side(py as i64 + *dy as i64, h);
                self.last = Some((x, y));
                out.push(self.move_post(x, y));
                assert(out@ =~= old(self)@.posts(*event, w, h, now));
                (out, true)
            },
            Payload::MouseButton { button, down } => {
                let cs = self.keyboard.sync_for_pointer(TARGET_IS_MAC);
                push_modifiers(&mut out, &cs);
                self.held = if *down {
                    Some(*button)
                } else {
                    None
                };
                let flags: u64 = mac_event_flags(self.keyboard.applied());
                match to_click_kind(*button, *down) {
                    Some(kind) => {
                        let (x, y) = self.place();
                        if *down {
                            self.click.press(x, y, now);
                        }
                        out.push(
                            MacPost::Mouse {
                                kind,
                                button: *button,
                                x,
                                y,
                                clicks: Some(self.click.count),
                                flags,
                            },
                        );
                        assert(out@ =~= old(self)@.posts(*event, w, h, now));
                        (out, true)
                    },
                    None => {
                        assert(out@ =~= old(self)@.posts(*event, w, h, now));
                        (out, false)
                    },
                }
            },
            Payload::MouseWheel { dx, dy } => {
                let cs = self.keyboard.sync_for_pointer(TARGET_IS_MAC);
                push_modifiers(&mut out, &cs);
                assert(PIXELS_PER_NOTCH == 100);
                let flags: u64 = mac_event_flags(self.keyboard.applied());
                out.push(
                    MacPost::Scroll {
                        dx: low_bits(*dx as i64 * 100),
                        dy: low_bits(*dy as i64 * 100),
                        flags,
                    },
                );
                assert(out@ =~= old(self)@.posts(*event, w, h, now));
                (out, true)
            },
            Payload::Key { key, down, .. } => {
                let plan = self.keyboard.on_key(TARGET_IS_MAC, *key, *down);
                push_modifiers(&mut out, &plan.before);
                match plan.stroke {
                    Some(stroke) => {
                        out.push(
                            MacPost::Key {
                                code: key_to_cg(stroke.key),
                                down: *down,
                                flags: mac_event_flags(stroke.modifiers),
                            },
                        );
                    },
                    None => {},
                }
                push_modifiers(&mut out, &plan.after);
                assert(out@ =~= old(self)@.posts(*event, w, h, now));
                (out, true)
            },
            Payload::Shortcut { shortcut } => {
                let (before, after) = self.keyboard.on_shortcut(TARGET_IS_MAC, *shortcut);
                let code: u16 = key_to_cg(shortcut.key);
                let flags: u64 = mac_event_flags(shortcut.modifiers);
                push_modifiers(&mut out, &before);
                out.push(MacPost::Key { code, down: true, flags });
                out.push(MacPost::Key { code, down: false, flags });
                push_modifiers(&mut out, &after);
                assert(out@ =~= old(self)@.posts(*event, w, h, now));
                (out, true)
            },
            _ => (out, false),
        }
    }

    /// Lets go of everything that the peer holds down, when control changes hands
    /// unexpectedly: the modifiers, the button, the keys, and every modifier once
    /// more.
    pub fn reset_keyboard_state(&mut self) -> (out: Vec<MacPost>)
        requires
            old(self).wf(),
        ensures
            final(self).wf(),
            final(self)@ == (InjectorView {
                keyboard: KeyboardView::initial(),
                held: None,
                ..old(self)@
            }),
            exists|keys: Seq<Key>| #[trigger]
                released(old(self)@.keyboard.active, keys) && out@ == old(self)@.releases(keys),
    {
        let cs = modifier_changes(self.keyboard.applied(), ModifierState::default());
        let keys = self.keyboard.reset();
        assert(released(old(self)@.keyboard.active, keys@));
        let mut out: Vec<MacPost> = Vec::new();
        push_modifiers(&mut out, &cs);
        match self.held {
            Some(button) => match to_click_kind(button, false) {
                Some(kind) => {
                    let (x, y) = self.place();
                    out.push(MacPost::Mouse { kind, button, x, y, clicks: None, flags: 0 });
                },
                None => {},
            },
            None => {},
        }
        self.held = None;
        let ghost before = out@;
        let ghost ups = keys@.map_values(
            |k: Key| MacPost::Key { code: cg_of_key(k), down: false, flags: 0 },
        );
        let n: usize = keys.len();
        let mut i: usize = 0;
        while i < n
            invariant
                n == keys@.len(),
                i <= n,
                ups == keys@.map_values(
                    |k: Key| MacPost::Key { code: cg_of_key(k), down: false, flags: 0 },
                ),
                out@ == before + ups.take(i as int),
            decreases n - i,
        {
            out.push(MacPost::Key { code: key_to_cg(keys[i]), down: false, flags: 0 });
            i += 1;
            assert(out@ =~= before + ups.take(i as int));
        }
        out.push(MacPost::Modifier { code: key_to_cg(Key::Shift), down: false, flags: 0 });
        out.push(MacPost::Modifier { code: key_to_cg(Key::Ctrl), down: false, flags: 0 });
        out.push(MacPost::Modifier { code: key_to_cg(Key::Alt), down: false, flags: 0 });
        out.push(MacPost::Modifier { code: key_to_cg(Key::Super), down: false, flags: 0 });
        assert(out@ =~= old(self)@.releases(keys@));
        out
    }
}

/// Where the mouse was put last; `None` before it was moved.
pub fn last_injected_pos(injector: &InputInjector) -> (p: Option<(i32, i32)>)
    ensures
        p == injector@.last,
{
    injector.last
}

/// Two clicks in one place that follow each other closely are a double click: both
/// the press and the release of the second say so.
pub proof fn law_second_click_is_a_double_click(
    i: InjectorView,
    button: u8,
    w: i32,
    h: i32,
    t1: u64,
    t2: u64,
    t3: u64,
    t4: u64,
)
    requires
        button <= 2,
        t1 <= t3 <= t1 + DOUBLE_CLICK_WINDOW,
        t1 > i.click.time + DOUBLE_CLICK_WINDOW,
    ensures
        ({
            let down = Payload::MouseButton { button, down: true };
            let up = Payload::MouseButton { button, down: false };
            let once = i.after(down, w, h, t1).after(up, w, h, t2);
            let again = once.after(down, w, h, t3);
            &&& i.posts(down, w, h, t1).last()->clicks == Some(1u32)
            &&& once.posts(down, w, h, t3).last()->clicks == Some(2u32)
            &&& again.posts(up, w, h, t4).last()->clicks == Some(2u32)
        }),
{
}

/// A movement always leaves the mouse on the screen, and while a button is held it is
/// a drag.
pub proof fn law_movements_stay_on_screen(i: InjectorView, dx: i32, dy: i32, w: i32, h: i32)
    requires
        w > 0,
        h > 0,
    ensures
        0 <= i.moved_by(dx, dy, w, h).0 < w,
        0 <= i.moved_by(dx, dy, w, h).1 < h,
        i.held is None ==> move_kind(i.held) is MouseMoved,
        i.held == Some(0u8) ==> move_kind(i.held) is LeftMouseDragged,
{
}

/// A click counts on from the one before where it follows within half a second and no more
/// than four pixels away in either direction, and starts from one otherwise.
pub proof fn law_clicks_are_counted(c: ClickState, x: i32, y: i32, now: u64)
    ensures
        ({
            let next = c.pressed(x, y, now);
            &&& next.time == now
            &&& next.place == Some((x, y))
            &&& c.place is None ==> next.count == 1
            &&& now > c.time + 500 * 1_000_000 ==> next.count == 1
            &&& c.place matches Some((px, py)) ==> {
                &&& px - x > 4 || x - px > 4 || py - y > 4 || y - py > 4 ==> next.count == 1
                &&& -4 <= px - x <= 4 && -4 <= py - y <= 4 && now <= c.time + 500 * 1_000_000
                    && c.count < u32::MAX ==> next.count == c.count + 1
            }
        }),
{
}

/// The mouse is put where the peer says, and drags with the button that is held. A
/// distance counts from where it was put last, and stops at the edges of the screen.
pub proof fn law_what_movements_do(i: InjectorView, x: i32, y: i32, w: i32, h: i32, now: u64)
    requires
        w > 0,
        h > 0,
    ensures
        ({
            let place = Payload::MouseMove { x, y, src_w: w as u32, src_h: h as u32 };
            let distance = Payload::MouseMoveRelative { dx: x, dy: y };
            let from = match i.last {
                Some(p) => p,
                None => (0i32, 0i32),
            };
            let by = i.after(distance, w, h, now).last;
            &&& i.after(place, w, h, now).last == Some((x, y))
            &&& by matches Some((px, py)) && {
                &&& 0 <= from.0 + x < w ==> px == from.0 + x
                &&& from.0 + x < 0 ==> px == 0
                &&& from.0 + x >= w ==> px == w - 1
                &&& 0 <= from.1 + y < h ==> py == from.1 + y
                &&& from.1 + y < 0 ==> py == 0
                &&& from.1 + y >= h ==> py == h - 1
            }
            &&& i.posts(place, w, h, now).len() == 1
            &&& i.posts(place, w, h, now)[0] matches MacPost::Mouse {
                kind,
                button,
                x: px,
                y: py,
                clicks,
                flags,
            } && {
                &&& px == x && py == y
                &&& clicks is None
                &&& flags == flags_of(i.keyboard.applied)
                &&& i.held == Some(0u8) ==> kind is LeftMouseDragged && button == 0
                &&& i.held == Some(1u8) ==> kind is RightMouseDragged && button == 1
                &&& i.held == Some(2u8) ==> kind is OtherMouseDragged && button == 2
                &&& i.held is None ==> kind is MouseMoved && button == 0
            }
            &&& i.posts(distance, w, h, now).len() == 1
            &&& i.posts(distance, w, h, now)[0] matches MacPost::Mouse {
                kind,
                button,
                x: px,
                y: py,
                clicks,
                flags,
            } && {
                &&& Some((px, py)) == by
                &&& clicks is None
                &&& flags == flags_of(i.keyboard.applied)
                &&& i.held == Some(0u8) ==> kind is LeftMouseDragged && button == 0
                &&& i.held == Some(1u8) ==> kind is RightMouseDragged && button == 1
                &&& i.held == Some(2u8) ==> kind is OtherMouseDragged && button == 2
                &&& i.held is None ==> kind is MouseMoved && button == 0
            }
            &&& i.after(place, w, h, now).held == i.held
            &&& i.after(place, w, h, now).keyboard == i.keyboard
            &&& i.after(distance, w, h, now).held == i.held
            &&& i.after(distance, w, h, now).keyboard == i.keyboard
        }),
{
}

/// A click happens where the mouse is, with the modifiers in line with the peer's. A
/// button that goes down is held until one goes up. The side buttons are not played.
pub proof fn law_what_clicks_do(
    i: InjectorView,
    button: u8,
    down: bool,
    w: i32,
    h: i32,
    now: u64,
)
    ensures
        ({
            let event = Payload::MouseButton { button, down };
            let posts = i.posts(event, w, h, now);
            let after = i.after(event, w, h, now);
            let wanted = exchanged_modifiers(i.keyboard.source);
            let before = changes(i.keyboard.applied, wanted).len();
            &&& after.held == if down {
                Some(button)
            } else {
                None
            }
            &&& after.last == i.last
            &&& after.keyboard.applied == wanted
            &&& after.keyboard.source == i.keyboard.source
            &&& button > 2 ==> posts.len() == before && after.click == i.click
            &&& !down ==> after.click == i.click
            &&& button <= 2 ==> {
                &&& posts.len() == before + 1
                &&& posts.last() matches MacPost::Mouse { kind, button: b, x, y, clicks, flags } && {
                    &&& b == button
                    &&& i.last matches Some(p) ==> p == (x, y)
                    &&& clicks == Some(after.click.count)
                    &&& flags == flags_of(wanted)
                    &&& button == 0 && down ==> kind is LeftMouseDown
                    &&& button == 0 && !down ==> kind is LeftMouseUp
                    &&& button == 1 && down ==> kind is RightMouseDown
                    &&& button == 1 && !down ==> kind is RightMouseUp
                    &&& button == 2 && down ==> kind is OtherMouseDown
                    &&& button == 2 && !down ==> kind is OtherMouseUp
                }
            }
            &&& plays(event) == (button <= 2)
        }),
{
}

/// A notch of the wheel scrolls by a hundred pixels in its direction.
pub proof fn law_what_the_wheel_does(i: InjectorView, dx: i32, dy: i32, w: i32, h: i32, now: u64)
    requires
        -0x100_0000 <= dx <= 0x100_0000,
        -0x100_0000 <= dy <= 0x100_0000,
    ensures
        ({
            let event = Payload::MouseWheel { dx, dy };
            let wanted = exchanged_modifiers(i.keyboard.source);
            &&& i.posts(event, w, h, now).last() matches MacPost::Scroll { dx: x, dy: y, flags } && x
                == 100 * dx && y == 100 * dy && flags == flags_of(wanted)
            &&& i.posts(event, w, h, now).len() == changes(i.keyboard.applied, wanted).len() + 1
            &&& i.after(event, w, h, now).last == i.last
            &&& i.after(event, w, h, now).held == i.held
            &&& i.after(event, w, h, now).keyboard.applied == wanted
        }),
{
}

/// A change of modifiers is posted with the code of its key and the flags of what is held
/// after it.
pub proof fn law_modifiers_are_posted_one_by_one(cs: Seq<ModifierChange>, k: int)
    requires
        0 <= k < cs.len(),
    ensures
        modifiers(cs).len() == cs.len(),
        modifiers(cs)[k] == (MacPost::Modifier {
            code: cg_of_key(cs[k].key),
            down: cs[k].down,
            flags: flags_of(cs[k].modifiers),
        }),
{
}

/// A key is posted between the changes of modifiers that it needs, with its own code and
/// the flags of its modifiers.
pub proof fn law_what_keys_do(
    i: InjectorView,
    key: Key,
    scan: u16,
    extended: bool,
    down: bool,
    w: i32,
    h: i32,
    now: u64,
)
    ensures
        ({
            let event = Payload::Key { key, scan, extended, down };
            let plan = i.keyboard.key_plan(true, key, down);
            let posts = i.posts(event, w, h, now);
            let n = plan.before.len() as int;
            &&& i.after(event, w, h, now).keyboard == i.keyboard.after_key(true, key, down)
            &&& i.after(event, w, h, now).held == i.held
            &&& i.after(event, w, h, now).last == i.last
            &&& posts.take(n) == modifiers(plan.before)
            &&& plan.stroke matches Some(stroke) ==> {
                &&& posts.len() == n + 1 + plan.after.len()
                &&& posts[n] == (MacPost::Key {
                    code: cg_of_key(stroke.key),
                    down,
                    flags: flags_of(stroke.modifiers),
                })
                &&& posts.skip(n + 1) == modifiers(plan.after)
            }
            &&& plan.stroke is None ==> posts.skip(n) == modifiers(plan.after)
        }),
{
    let event = Payload::Key { key, scan, extended, down };
    let plan = i.keyboard.key_plan(true, key, down);
    let middle = match plan.stroke {
        Some(stroke) => seq![
            MacPost::Key { code: cg_of_key(stroke.key), down, flags: flags_of(stroke.modifiers) },
        ],
        None => Seq::<MacPost>::empty(),
    };
    lemma_parts(modifiers(plan.before), middle, modifiers(plan.after));
}

proof fn lemma_parts(a: Seq<MacPost>, b: Seq<MacPost>, c: Seq<MacPost>)
    ensures
        (a + b + c).len() == a.len() + b.len() + c.len(),
        (a + b + c).take(a.len() as int) == a,
        (a + b + c).skip(a.len() as int + b.len() as int) == c,
        forall|k: int| 0 <= k < b.len() ==> (a + b + c)[a.len() + k] == #[trigger] b[k],
{
    assert((a + b + c).take(a.len() as int) =~= a);
    assert((a + b + c).skip(a.len() as int + b.len() as int) =~= c);
}

/// A whole shortcut is its key pressed and let go with its modifiers, between the changes
/// that lead to them and those that lead back to the peer's.
pub proof fn law_what_shortcuts_do(
    i: InjectorView,
    shortcut: NativeShortcut,
    w: i32,
    h: i32,
    now: u64,
)
    ensures
        ({
            let event = Payload::Shortcut { shortcut };
            let posts = i.posts(event, w, h, now);
            let before = changes(i.keyboard.applied, shortcut.modifiers);
            let back = exchanged_modifiers(i.keyboard.source);
            let after = changes(shortcut.modifiers, back);
            let n = before.len() as int;
            &&& posts.len() == n + 2 + after.len()
            &&& posts.take(n) == modifiers(before)
            &&& posts[n] == (MacPost::Key {
                code: cg_of_key(shortcut.key),
                down: true,
                flags: flags_of(shortcut.modifiers),
            })
            &&& posts[n + 1] == (MacPost::Key {
                code: cg_of_key(shortcut.key),
                down: false,
                flags: flags_of(shortcut.modifiers),
            })
            &&& posts.skip(n + 2) == modifiers(after)
            &&& i.after(event, w, h, now).keyboard.applied == back
            &&& i.after(event, w, h, now).keyboard.source == i.keyboard.source
        }),
{
    let event = Payload::Shortcut { shortcut };
    let posts = i.posts(event, w, h, now);
    let before = changes(i.keyboard.applied, shortcut.modifiers);
    let after = changes(shortcut.modifiers, exchanged_modifiers(i.keyboard.source));
    let n = before.len() as int;
    assert(posts.take(n) =~= modifiers(before));
    assert(posts.skip(n + 2) =~= modifiers(after));
}

/// Letting go of everything lets go of the modifiers, of the button that is held, where
/// the mouse is, of every key, and of every modifier once more.
pub proof fn law_everything_is_let_go(i: InjectorView, keys: Seq<Key>, k: int)
    requires
        0 <= k < keys.len(),
    ensures
        ({
            let posts = i.releases(keys);
            let n = changes(i.keyboard.applied, held(false, false, false, false)).len() as int;
            let clicked = i.held matches Some(b) && b <= 2;
            let m = if clicked {
                n + 1
            } else {
                n
            };
            &&& posts.len() == m + keys.len() + 4
            &&& clicked ==> (posts[n] matches MacPost::Mouse { kind, button, x, y, clicks, flags } && {
                &&& Some(button) == i.held
                &&& i.last matches Some(p) ==> p == (x, y)
                &&& clicks is None && flags == 0
                &&& button == 0 ==> kind is LeftMouseUp
                &&& button == 1 ==> kind is RightMouseUp
                &&& button == 2 ==> kind is OtherMouseUp
            })
            &&& posts[m + k] == (MacPost::Key { code: cg_of_key(keys[k]), down: false, flags: 0 })
            &&& posts[m + keys.len()] == (MacPost::Modifier {
                code: cg_of_key(Key::Shift),
                down: false,
                flags: 0,
            })
            &&& posts[m + keys.len() + 1] == (MacPost::Modifier {
                code: cg_of_key(Key::Ctrl),
                down: false,
                flags: 0,
            })
            &&& posts[m + keys.len() + 2] == (MacPost::Modifier {
                code: cg_of_key(Key::Alt),
                down: false,
                flags: 0,
            })
            &&& posts[m + keys.len() + 3] == (MacPost::Modifier {
                code: cg_of_key(Key::Super),
                down: false,
                flags: 0,
            })
        }),
{
}

} // verus!
