//! Who controls whom.
//!
//! A cursor that rests on the edge towards the peer for a while takes control:
//! the peer becomes the sink, its cursor enters at the opposite edge, and what
//! is typed and moved here is played there. Resting on that edge again gives
//! control back. The side that is being controlled can take control in the same
//! way, and also ends the round by itself when the injected cursor comes to rest
//! where it came in, though not within a second of being taken.
//!
//! Times are readings of one monotonic clock, in nanoseconds.

use vstd::prelude::*;

use crate::geometry::{edge_of, entry_point, hit_edge, Edge};
use crate::protocol::Payload;

verus! {

/// On which side of this screen the peer stands.
#[derive(Debug, Clone, Copy, PartialEq, Eq, Structural)]
pub enum Layout {
    PeerRight,
    PeerLeft,
}

/// Whether this machine controls (`Source`) or is controlled (`Sink`).
#[derive(Debug, Clone, Copy, PartialEq, Eq, Structural)]
pub enum Mode {
    Source,
    Sink,
}

/// What the arbiter wants done.
#[derive(Debug, Clone, PartialEq)]
pub enum Action {
    /// Ask the peer to become the sink with its cursor at `(x, y)` of a screen
    /// of `src_w` by `src_h` pixels.
    TakeControl { x: i32, y: i32, src_w: u32, src_h: u32 },
    /// Give control back.
    ReleaseControl,
    /// Put the local cursor at `(x, y)`, away from the edge, so that further
    /// movement can be seen.
    Warp { x: i32, y: i32 },
    /// Play this on the peer.
    Forward(Payload),
    Nothing,
}

/// How close to the edge a cursor counts as being on it.
pub const EDGE_MARGIN: i32 = 2;

/// How close to the edge an injected cursor counts as being on it. It is wide
/// because a touchpad rarely stops on the outermost pixel.
pub const RETURN_MARGIN: i32 = 30;

/// How far an injected cursor may drift and still be at rest.
pub const JITTER_TOLERANCE: i32 = 3;

/// How long a cursor must rest on the edge: 150 ms.
pub const DWELL: u64 = 150_000_000;

/// How long after control was taken the side that is being controlled may not give it
/// back by itself: 1 s.
pub const SWITCH_GUARD: u64 = 1_000_000_000;

/// The edge through which the cursor leaves for the peer.
pub open spec fn exit_edge_of(layout: Layout) -> Edge {
    match layout {
        Layout::PeerRight => Edge::Right,
        Layout::PeerLeft => Edge::Left,
    }
}

/// Whether a rest that began at `start` has lasted long enough at `now`.
pub open spec fn rested(start: u64, now: u64) -> bool {
    now - start >= DWELL
}

/// What an arbiter remembers.
pub struct ArbiterState {
    pub layout: Layout,
    pub mode: Mode,
    /// This machine is the source of a running round.
    pub linked: bool,
    /// Since when, and from which point on, the cursor is on the exit edge.
    pub dwell: Option<(u64, i32, i32)>,
    /// The last known cursor position and screen size.
    pub last: Option<(i32, i32, i32, i32)>,
    /// Since when, and from which point on, the injected cursor is near the
    /// exit edge.
    pub sink_dwell: Option<(u64, i32, i32)>,
    /// When the clock was first looked at since the peer took control.
    pub sink_since: Option<u64>,
    /// Where the cursor left this screen in the last round.
    pub exit_pos: Option<(i32, i32)>,
}

impl ArbiterState {
    pub open spec fn initial(layout: Layout) -> Self {
        ArbiterState {
            layout,
            mode: Mode::Source,
            linked: false,
            dwell: None,
            last: None,
            sink_dwell: None,
            sink_since: None,
            exit_pos: None,
        }
    }

    /// The screen that was seen last is one whose edges can be computed.
    pub open spec fn screen_known(self) -> bool {
        self.last matches Some(l) ==> l.2 >= i32::MIN + EDGE_MARGIN && l.3 >= i32::MIN
            + EDGE_MARGIN
    }

    /// The point beside the opposite edge to which the cursor is moved when a
    /// round begins.
    pub open spec fn warp_x(self, w: int) -> int {
        match self.layout {
            Layout::PeerRight => 1,
            Layout::PeerLeft => w - 2,
        }
    }

    /// The state after a rest on the exit edge is looked at, on a screen of `w`
    /// by `h` pixels.
    pub open spec fn after_dwell(self, now: u64) -> Self {
        match self.dwell {
            Some((start, x, y)) if rested(start, now) => if self.linked {
                ArbiterState { linked: false, dwell: None, ..self }
            } else {
                ArbiterState {
                    mode: Mode::Source,
                    linked: true,
                    dwell: None,
                    exit_pos: Some((x, y)),
                    ..self
                }
            },
            _ => self,
        }
    }

    /// What is done when a rest on the exit edge is looked at: nothing until it
    /// is over; then a running round ends, or a new one begins.
    pub open spec fn dwell_actions(self, now: u64, w: i32, h: i32) -> Seq<Action> {
        match self.dwell {
            Some((start, x, y)) if rested(start, now) => if self.linked {
                seq![Action::ReleaseControl]
            } else {
                let entry = entry_point(
                    exit_edge_of(self.layout),
                    x as int,
                    y as int,
                    w as int,
                    h as int,
                    0,
                );
                seq![
                    Action::TakeControl {
                        x: entry.0 as i32,
                        y: entry.1 as i32,
                        src_w: w as u32,
                        src_h: h as u32,
                    },
                    Action::Warp { x: self.warp_x(w as int) as i32, y },
                ]
            },
            _ => seq![],
        }
    }

    /// Whether `(x, y)` is on the exit edge.
    pub open spec fn at_exit(self, x: i32, y: i32, w: i32, h: i32) -> bool {
        edge_of(x as int, y as int, w as int, h as int, EDGE_MARGIN as int) == exit_edge_of(
            self.layout,
        )
    }

    /// The state in which a cursor at `(x, y)` is noted: a rest begins, goes on
    /// or is broken off.
    pub open spec fn cursor_noted(self, x: i32, y: i32, w: i32, h: i32, now: u64) -> Self {
        let dwell = if !self.at_exit(x, y, w, h) {
            None
        } else if self.dwell is Some {
            self.dwell
        } else {
            Some((now, x, y))
        };
        ArbiterState { last: Some((x, y, w, h)), dwell, ..self }
    }

    pub open spec fn after_cursor(self, x: i32, y: i32, w: i32, h: i32, now: u64) -> Self {
        let noted = self.cursor_noted(x, y, w, h, now);
        if self.at_exit(x, y, w, h) {
            noted.after_dwell(now)
        } else {
            noted
        }
    }

    /// What a cursor event leads to. On the exit edge only the rest counts;
    /// elsewhere the movement is played on the peer during a round.
    pub open spec fn cursor_actions(self, x: i32, y: i32, w: i32, h: i32, now: u64) -> Seq<Action> {
        if self.at_exit(x, y, w, h) {
            self.cursor_noted(x, y, w, h, now).dwell_actions(now, w, h)
        } else if self.mode == Mode::Source && self.linked {
            seq![
                Action::Forward(
                    Payload::MouseMove { x, y, src_w: w as u32, src_h: h as u32 },
                ),
            ]
        } else {
            seq![]
        }
    }

    /// What becomes of a key, a click or a wheel turn.
    pub open spec fn input_action(self, payload: Payload) -> Action {
        if self.mode == Mode::Source && self.linked {
            Action::Forward(payload)
        } else {
            Action::Nothing
        }
    }

    pub open spec fn after_tick(self, now: u64) -> Self {
        if self.last is Some { self.after_dwell(now) } else { self }
    }

    pub open spec fn tick_actions(self, now: u64) -> Seq<Action> {
        match self.last {
            Some((_, _, w, h)) => self.dwell_actions(now, w, h),
            None => seq![],
        }
    }

    pub open spec fn after_peer_take(self) -> Self {
        ArbiterState {
            mode: Mode::Sink,
            linked: false,
            sink_dwell: None,
            sink_since: None,
            ..self
        }
    }

    pub open spec fn after_peer_release(self) -> Self {
        ArbiterState {
            mode: Mode::Source,
            linked: false,
            sink_dwell: None,
            sink_since: None,
            ..self
        }
    }

    /// Whether an injected cursor at `(x, y)` is near the exit edge.
    pub open spec fn near_exit(self, x: i32, y: i32, w: i32, h: i32) -> bool {
        edge_of(x as int, y as int, w as int, h as int, RETURN_MARGIN as int) == exit_edge_of(
            self.layout,
        )
    }

    /// Since when the injected cursor at `(x, y)` rests near the exit edge. A
    /// drift within the tolerance does not interrupt the rest.
    pub open spec fn sink_rest(self, x: i32, y: i32, now: u64) -> (u64, i32, i32) {
        match self.sink_dwell {
            Some((start, rx, ry)) if at_rest(x, y, rx, ry) => (start, rx, ry),
            _ => (now, x, y),
        }
    }

    /// Since when the peer controls this machine, as far as the clock was looked at.
    pub open spec fn controlled_since(self, now: u64) -> u64 {
        match self.sink_since {
            Some(t) => t,
            None => now,
        }
    }

    /// Whether the side that is being controlled ends the round now.
    pub open spec fn sink_returns(
        self,
        pos: Option<(i32, i32)>,
        w: i32,
        h: i32,
        now: u64,
    ) -> bool {
        &&& self.mode == Mode::Sink
        &&& now - self.controlled_since(now) >= SWITCH_GUARD
        &&& pos matches Some((x, y)) && self.near_exit(x, y, w, h) && rested(
            self.sink_rest(x, y, now).0,
            now,
        )
    }

    pub open spec fn after_sink_tick(
        self,
        pos: Option<(i32, i32)>,
        w: i32,
        h: i32,
        now: u64,
    ) -> Self {
        if self.mode != Mode::Sink {
            self
        } else if self.sink_returns(pos, w, h, now) {
            self.after_peer_release()
        } else {
            let sink_dwell = match pos {
                Some((x, y)) if self.near_exit(x, y, w, h) => Some(self.sink_rest(x, y, now)),
                _ => None,
            };
            ArbiterState { sink_dwell, sink_since: Some(self.controlled_since(now)), ..self }
        }
    }

    pub open spec fn sink_tick_actions(
        self,
        pos: Option<(i32, i32)>,
        w: i32,
        h: i32,
        now: u64,
    ) -> Seq<Action> {
        if self.sink_returns(pos, w, h, now) {
            seq![Action::ReleaseControl]
        } else {
            seq![]
        }
    }
}

/// Whether `(x, y)` is within the tolerance of `(rx, ry)`.
pub open spec fn at_rest(x: i32, y: i32, rx: i32, ry: i32) -> bool {
    -JITTER_TOLERANCE <= x - rx <= JITTER_TOLERANCE && -JITTER_TOLERANCE <= y - ry
        <= JITTER_TOLERANCE
}

fn is_at_rest(x: i32, y: i32, rx: i32, ry: i32) -> (r: bool)
    ensures
        r == at_rest(x, y, rx, ry),
{
    let dx: i64 = x as i64 - rx as i64;
    let dy: i64 = y as i64 - ry as i64;
    let tolerance: i64 = JITTER_TOLERANCE as i64;
    -tolerance <= dx && dx <= tolerance && -tolerance <= dy && dy <= tolerance
}

fn has_rested(start: u64, now: u64) -> (r: bool)
    ensures
        r == rested(start, now),
{
    now >= start && now - start >= DWELL
}

/// Decides, from cursor positions and the clock, who controls whom.
pub struct Arbiter {
    pub layout: Layout,
    pub exit_edge: Edge,
    pub mode: Mode,
    /// This machine is the source of a running round.
    pub linked: bool,
    pub dwell: Option<(u64, i32, i32)>,
    pub last: Option<(i32, i32, i32, i32)>,
    pub sink_dwell: Option<(u64, i32, i32)>,
    pub sink_since: Option<u64>,
    pub exit_pos: Option<(i32, i32)>,
}

impl View for Arbiter {
    type V = ArbiterState;

    open spec fn view(&self) -> ArbiterState {
        ArbiterState {
            layout: self.layout,
            mode: self.mode,
            linked: self.linked,
            dwell: self.dwell,
            last: self.last,
            sink_dwell: self.sink_dwell,
            sink_since: self.sink_since,
            exit_pos: self.exit_pos,
        }
    }
}

impl Arbiter {
    /// The exit edge is the one of the layout, and the screen was a sensible one.
    pub open spec fn wf(&self) -> bool {
        self.exit_edge == exit_edge_of(self.layout) && self@.screen_known()
    }

    /// Starts in control of itself, with no round running.
    pub fn new(layout: Layout) -> (a: Self)
        ensures
            a.wf(),
            a@ == ArbiterState::initial(layout),
    {
        let exit_edge = match layout {
            Layout::PeerRight => Edge::Right,
            Layout::PeerLeft => Edge::Left,
        };
        Arbiter {
            layout,
            exit_edge,
            mode: Mode::Source,
            linked: false,
            dwell: None,
            last: None,
            sink_dwell: None,
            sink_since: None,
            exit_pos: None,
        }
    }

    /// The edge through which the cursor leaves for the peer.
    pub fn exit_edge(&self) -> (edge: Edge)
        requires
            self.wf(),
        ensures
            edge == exit_edge_of(self@.layout),
    {
        self.exit_edge
    }

    /// Where the cursor left this screen in the last round.
    pub fn exit_pos(&self) -> (pos: Option<(i32, i32)>)
        ensures
            pos == self@.exit_pos,
    {
        self.exit_pos
    }

    /// The local cursor is at `(x, y)` of a screen of `w` by `h` pixels.
    pub fn on_cursor(&mut self, x: i32, y: i32, w: i32, h: i32, now: u64) -> (actions: Vec<Action>)
        requires
            old(self).wf(),
            w >= i32::MIN + EDGE_MARGIN,
            h >= i32::MIN + EDGE_MARGIN,
        ensures
            final(self).wf(),
            final(self)@ == old(self)@.after_cursor(x, y, w, h, now),
            actions@ == old(self)@.cursor_actions(x, y, w, h, now),
    {
        self.last = Some((x, y, w, h));
        let at_exit = hit_edge(x, y, w, h, EDGE_MARGIN) == self.exit_edge;
        if at_exit {
            if self.dwell.is_none() {
                self.dwell = Some((now, x, y));
            }
            return self.check_dwell(now, w, h);
        }
        self.dwell = None;
        if self.mode == Mode::Source && self.linked {
            vec![Action::Forward(Payload::MouseMove { x, y, src_w: w as u32, src_h: h as u32 })]
        } else {
            Vec::new()
        }
    }

    /// A key, a click or a wheel turn on this machine.
    pub fn on_input(&mut self, payload: Payload) -> (action: Action)
        ensures
            *final(self) == *old(self),
            action == old(self)@.input_action(payload),
    {
        if self.mode == Mode::Sink || !self.linked {
            return Action::Nothing;
        }
        Action::Forward(payload)
    }

    /// The clock went on. A cursor that stays on the edge without moving takes
    /// control here.
    pub fn on_tick(&mut self, now: u64) -> (actions: Vec<Action>)
        requires
            old(self).wf(),
        ensures
            final(self).wf(),
            final(self)@ == old(self)@.after_tick(now),
            actions@ == old(self)@.tick_actions(now),
    {
        match self.last {
            Some((_x, _y, w, h)) => self.check_dwell(now, w, h),
            None => Vec::new(),
        }
    }

    /// The peer takes control. Returns where its cursor enters this screen.
    pub fn on_peer_take(&mut self, x: i32, y: i32) -> (entry: Option<(i32, i32)>)
        requires
            old(self).wf(),
        ensures
            final(self).wf(),
            final(self)@ == old(self)@.after_peer_take(),
            entry == Some((x, y)),
    {
        self.mode = Mode::Sink;
        self.linked = false;
        self.sink_dwell = None;
        self.sink_since = None;
        Some((x, y))
    }

    /// The peer gives control back, or is gone.
    pub fn on_peer_release(&mut self)
        requires
            old(self).wf(),
        ensures
            final(self).wf(),
            final(self)@ == old(self)@.after_peer_release(),
    {
        self.mode = Mode::Source;
        self.linked = false;
        self.sink_dwell = None;
        self.sink_since = None;
    }

    /// The clock went on while the peer controls this machine, whose cursor was
    /// last injected at `pos`. A cursor that rests near the exit edge gives
    /// control back, once the peer has had it for a while.
    pub fn on_sink_tick(
        &mut self,
        pos: Option<(i32, i32)>,
        w: i32,
        h: i32,
        now: u64,
    ) -> (actions: Vec<Action>)
        requires
            old(self).wf(),
            w >= i32::MIN + RETURN_MARGIN,
            h >= i32::MIN + RETURN_MARGIN,
        ensures
            final(self).wf(),
            final(self)@ == old(self)@.after_sink_tick(pos, w, h, now),
            actions@ == old(self)@.sink_tick_actions(pos, w, h, now),
    {
        if self.mode != Mode::Sink {
            return Vec::new();
        }
        let since: u64 = match self.sink_since {
            Some(t) => t,
            None => now,
        };
        self.sink_since = Some(since);
        let kept: bool = now >= since && now - since >= SWITCH_GUARD;
        let near: Option<(i32, i32)> = match pos {
            Some((x, y)) => if hit_edge(x, y, w, h, RETURN_MARGIN) == self.exit_edge {
                Some((x, y))
            } else {
                None
            },
            None => None,
        };
        match near {
            Some((x, y)) => {
                let rest: (u64, i32, i32) = match self.sink_dwell {
                    Some((start, rx, ry)) => if is_at_rest(x, y, rx, ry) {
                        (start, rx, ry)
                    } else {
                        (now, x, y)
                    },
                    None => (now, x, y),
                };
                if kept && has_rested(rest.0, now) {
                    self.on_peer_release();
                    return vec![Action::ReleaseControl];
                }
                self.sink_dwell = Some(rest);
            },
            None => {
                self.sink_dwell = None;
            },
        }
        Vec::new()
    }

    /// Looks at the rest on the exit edge: once it is over, a running round ends
    /// or a new one begins.
    fn check_dwell(&mut self, now: u64, w: i32, h: i32) -> (actions: Vec<Action>)
        requires
            old(self).wf(),
            w >= i32::MIN + EDGE_MARGIN,
        ensures
            final(self).wf(),
            final(self)@ == old(self)@.after_dwell(now),
            actions@ == old(self)@.dwell_actions(now, w, h),
    {
        let (start, x, y): (u64, i32, i32) = match self.dwell {
            Some(d) => d,
            None => return Vec::new(),
        };
        if !has_rested(start, now) {
            return Vec::new();
        }
        self.dwell = None;
        if self.linked {
            self.linked = false;
            return vec![Action::ReleaseControl];
        }
        self.mode = Mode::Source;
        self.linked = true;
        self.exit_pos = Some((x, y));
        let (peer_x, warp_x): (i32, i32) = match self.layout {
            Layout::PeerRight => (0, 1),
            Layout::PeerLeft => (if w >= 1 { w - 1 } else { 0 }, w - 2),
        };
        vec![
            Action::TakeControl { x: peer_x, y, src_w: w as u32, src_h: h as u32 },
            Action::Warp { x: warp_x, y },
        ]
    }
}

/// A machine that is the source of a running round is never also the sink.
pub open spec fn consistent(s: ArbiterState) -> bool {
    s.linked ==> s.mode == Mode::Source
}

/// No event ever makes a machine source and sink at once.
pub proof fn law_source_or_sink(
    s: ArbiterState,
    layout: Layout,
    x: i32,
    y: i32,
    w: i32,
    h: i32,
    pos: Option<(i32, i32)>,
    now: u64,
)
    requires
        consistent(s),
    ensures
        consistent(ArbiterState::initial(layout)),
        consistent(s.after_cursor(x, y, w, h, now)),
        consistent(s.after_tick(now)),
        consistent(s.after_peer_take()),
        consistent(s.after_peer_release()),
        consistent(s.after_sink_tick(pos, w, h, now)),
{
}

/// While the peer controls this machine, nothing that happens here is played
/// on the peer.
pub proof fn law_sink_forwards_nothing(
    s: ArbiterState,
    payload: Payload,
    x: i32,
    y: i32,
    w: i32,
    h: i32,
    now: u64,
)
    requires
        s.mode == Mode::Sink,
    ensures
        s.input_action(payload) == Action::Nothing,
        forall|i: int|
            0 <= i < s.cursor_actions(x, y, w, h, now).len() ==> !(#[trigger] s.cursor_actions(
                x,
                y,
                w,
                h,
                now,
            )[i] is Forward),
        forall|i: int|
            0 <= i < s.tick_actions(now).len() ==> !(#[trigger] s.tick_actions(now)[i] is Forward),
{
}

/// A cursor that reaches the exit edge changes nothing before it has rested
/// there for the whole dwell time.
pub proof fn law_touching_the_edge_is_not_enough(
    s: ArbiterState,
    x: i32,
    y: i32,
    w: i32,
    h: i32,
    x2: i32,
    y2: i32,
    t0: u64,
    t1: u64,
)
    requires
        s.dwell is None,
        s.at_exit(x, y, w, h),
        t0 <= t1 < t0 + DWELL,
    ensures
        s.cursor_actions(x, y, w, h, t0) == Seq::<Action>::empty(),
        ({
            let waiting = s.after_cursor(x, y, w, h, t0);
            &&& waiting.mode == s.mode && waiting.linked == s.linked
            &&& waiting.tick_actions(t1) == Seq::<Action>::empty()
            &&& waiting.after_tick(t1) == waiting
            &&& s.at_exit(x2, y2, w, h) ==> waiting.cursor_actions(x2, y2, w, h, t1) == Seq::<
                Action,
            >::empty()
        }),
{
}

/// Resting on the exit edge for the dwell time begins a round, whether or not
/// the cursor moves along the edge meanwhile and whether the peer controlled
/// this machine before.
pub proof fn law_rest_takes_control(
    s: ArbiterState,
    x: i32,
    y: i32,
    w: i32,
    h: i32,
    x2: i32,
    y2: i32,
    t0: u64,
    t1: u64,
)
    requires
        s.dwell is None,
        !s.linked,
        s.at_exit(x, y, w, h),
        s.at_exit(x2, y2, w, h),
        t1 >= t0 + DWELL,
    ensures
        ({
            let waiting = s.after_cursor(x, y, w, h, t0);
            let ticked = waiting.after_tick(t1);
            let moved = waiting.after_cursor(x2, y2, w, h, t1);
            &&& ticked.linked && ticked.mode == Mode::Source && ticked.exit_pos == Some((x, y))
            &&& moved.linked && moved.mode == Mode::Source && moved.exit_pos == Some((x, y))
            &&& waiting.tick_actions(t1).len() == 2 && waiting.tick_actions(t1)[0] is TakeControl
            &&& waiting.cursor_actions(x2, y2, w, h, t1) == waiting.tick_actions(t1)
        }),
{
}

/// During a round, resting on the exit edge for the dwell time ends it, and
/// nothing is played on the peer afterwards.
pub proof fn law_second_rest_gives_back(
    s: ArbiterState,
    x: i32,
    y: i32,
    w: i32,
    h: i32,
    payload: Payload,
    t0: u64,
    t1: u64,
)
    requires
        s.dwell is None,
        s.linked,
        s.at_exit(x, y, w, h),
        t1 >= t0 + DWELL,
    ensures
        ({
            let waiting = s.after_cursor(x, y, w, h, t0);
            let done = waiting.after_tick(t1);
            &&& waiting.tick_actions(t1) == seq![Action::ReleaseControl]
            &&& !done.linked
            &&& done.input_action(payload) == Action::Nothing
        }),
{
}

/// Leaving the edge breaks the rest off: the dwell time starts anew.
pub proof fn law_leaving_the_edge_breaks_the_rest(
    s: ArbiterState,
    x: i32,
    y: i32,
    w: i32,
    h: i32,
    now: u64,
    later: u64,
)
    requires
        !s.at_exit(x, y, w, h),
    ensures
        s.after_cursor(x, y, w, h, now).dwell is None,
        s.after_cursor(x, y, w, h, now).tick_actions(later) == Seq::<Action>::empty(),
{
}

/// When one machine begins a round and the other accepts, exactly the first is
/// linked; when the round ends, neither is, and both are in control of
/// themselves.
pub proof fn law_one_side_controls(a: ArbiterState, b: ArbiterState, now: u64, later: u64)
    requires
        a.dwell matches Some(d) && rested(d.0, now),
        !a.linked,
    ensures
        ({
            let source = a.after_dwell(now);
            let sink = b.after_peer_take();
            let freed = sink.after_peer_release();
            &&& source.linked && source.mode == Mode::Source
            &&& !sink.linked && sink.mode == Mode::Sink
            &&& !freed.linked && freed.mode == Mode::Source
            &&& !source.after_peer_release().linked
        }),
{
}

/// On the side that is being controlled, a drift within the tolerance does not
/// delay the end of the round.
pub proof fn law_drift_does_not_interrupt_the_return(
    s: ArbiterState,
    x: i32,
    y: i32,
    x2: i32,
    y2: i32,
    w: i32,
    h: i32,
    t0: u64,
    t1: u64,
)
    requires
        s.mode == Mode::Sink,
        s.sink_dwell is None,
        s.near_exit(x, y, w, h),
        s.near_exit(x2, y2, w, h),
        at_rest(x2, y2, x, y),
        t1 >= t0 + DWELL,
        s.sink_since matches Some(t) ==> t0 < t + SWITCH_GUARD <= t1,
        s.sink_since is None ==> t1 >= t0 + SWITCH_GUARD,
    ensures
        ({
            let waiting = s.after_sink_tick(Some((x, y)), w, h, t0);
            &&& s.sink_tick_actions(Some((x, y)), w, h, t0) == Seq::<Action>::empty()
            &&& waiting.sink_tick_actions(Some((x2, y2)), w, h, t1) == seq![Action::ReleaseControl]
            &&& waiting.after_sink_tick(Some((x2, y2)), w, h, t1).mode == Mode::Source
        }),
{
}

/// Between the moment in which the peer takes control and the moment in which this
/// machine gives it back by itself lies at least the guard time, whatever the cursor
/// does: it is counted from the first look at the clock, and no later look moves it.
pub proof fn law_control_is_kept_for_a_while(
    s: ArbiterState,
    first: Option<(i32, i32)>,
    pos: Option<(i32, i32)>,
    w: i32,
    h: i32,
    t0: u64,
    since: u64,
    now: u64,
)
    ensures
        ({
            let taken = s.after_peer_take();
            &&& taken.sink_tick_actions(first, w, h, t0) == Seq::<Action>::empty()
            &&& taken.after_sink_tick(first, w, h, t0).mode == Mode::Sink
            &&& taken.after_sink_tick(first, w, h, t0).sink_since == Some(t0)
        }),
        s.mode == Mode::Sink && s.sink_since == Some(since) && now < since + SWITCH_GUARD ==> {
            &&& s.sink_tick_actions(pos, w, h, now) == Seq::<Action>::empty()
            &&& s.after_sink_tick(pos, w, h, now).mode == Mode::Sink
            &&& s.after_sink_tick(pos, w, h, now).sink_since == Some(since)
        },
{
}

/// The exit edge is the side on which the peer stands: within two pixels of the left
/// edge with the peer on the left, within two of the right one with the peer on the right.
pub proof fn law_exit_is_on_the_side_of_the_peer(s: ArbiterState, x: i32, y: i32, w: i32, h: i32)
    requires
        w >= 4,
    ensures
        s.layout == Layout::PeerLeft ==> s.at_exit(x, y, w, h) == (x < 2),
        s.layout == Layout::PeerRight ==> s.at_exit(x, y, w, h) == (x >= w - 2),
{
}

/// A machine that is controlled gives control back only where the injected cursor came
/// to rest within thirty pixels of the edge on which the peer stands, at least 150 ms
/// after it came to rest there and at least a second after control was taken; and there
/// it does give it back.
pub proof fn law_return_is_on_the_side_of_the_peer(
    s: ArbiterState,
    x: i32,
    y: i32,
    w: i32,
    h: i32,
    now: u64,
    since: u64,
    start: u64,
)
    requires
        w > 60,
        s.mode == Mode::Sink,
        s.sink_since == Some(since),
        s.sink_dwell == Some((start, x, y)),
    ensures
        s.layout == Layout::PeerLeft && x >= 30 ==> s.sink_tick_actions(Some((x, y)), w, h, now)
            == Seq::<Action>::empty(),
        s.layout == Layout::PeerRight && x < w - 30 ==> s.sink_tick_actions(
            Some((x, y)),
            w,
            h,
            now,
        ) == Seq::<Action>::empty(),
        (s.layout == Layout::PeerLeft && x < 30) || (s.layout == Layout::PeerRight && x >= w - 30)
            ==> {
            let over = now >= start + 150_000_000 && now >= since + 1_000_000_000;
            &&& over ==> s.sink_tick_actions(Some((x, y)), w, h, now) == seq![Action::ReleaseControl]
            &&& !over ==> s.sink_tick_actions(Some((x, y)), w, h, now) == Seq::<Action>::empty()
        },
{
}

/// Whatever the state of a controlled machine is, it gives control back only for a cursor
/// near the edge on which the peer stands, and then it is in control of itself.
pub proof fn law_no_return_elsewhere(
    s: ArbiterState,
    pos: Option<(i32, i32)>,
    w: i32,
    h: i32,
    now: u64,
)
    requires
        w > 60,
    ensures
        ({
            let actions = s.sink_tick_actions(pos, w, h, now);
            let after = s.after_sink_tick(pos, w, h, now);
            &&& actions.len() == 0 || actions == seq![Action::ReleaseControl]
            &&& actions.len() > 0 ==> {
                &&& s.mode == Mode::Sink
                &&& pos matches Some(p) && (s.layout == Layout::PeerLeft ==> p.0 < 30) && (s.layout
                    == Layout::PeerRight ==> p.0 >= w - 30)
                &&& after.mode == Mode::Source && !after.linked
            }
            &&& actions.len() == 0 ==> after.mode == s.mode && after.linked == s.linked
            &&& after.layout == s.layout && after.dwell == s.dwell && after.last == s.last
                && after.exit_pos == s.exit_pos
        }),
{
}

/// A cursor that moves away by more than three pixels begins its rest near the exit edge
/// anew; one that leaves the edge, or is nowhere, rests no longer.
pub proof fn law_return_rest_begins_anew(
    s: ArbiterState,
    x: i32,
    y: i32,
    w: i32,
    h: i32,
    now: u64,
    start: u64,
    rx: i32,
    ry: i32,
)
    requires
        w > 60,
        s.mode == Mode::Sink,
        s.sink_dwell == Some((start, rx, ry)),
        s.sink_since matches Some(t) ==> now < t + 1_000_000_000,
    ensures
        ({
            let near = (s.layout == Layout::PeerRight && x >= w - 30) || (s.layout
                == Layout::PeerLeft && x < 30);
            let after = s.after_sink_tick(Some((x, y)), w, h, now);
            &&& near && (x - rx > 3 || rx - x > 3 || y - ry > 3 || ry - y > 3) ==> after.sink_dwell
                == Some((now, x, y))
            &&& near && -3 <= x - rx <= 3 && -3 <= y - ry <= 3 ==> after.sink_dwell == s.sink_dwell
            &&& !near ==> after.sink_dwell is None
            &&& s.after_sink_tick(None, w, h, now).sink_dwell is None
        }),
{
}

/// When a rest of at least 150 ms on the exit edge is over and no round runs, the peer is
/// asked to take the cursor at its opposite edge, at the height at which it left, and the
/// local cursor goes to the other side of this screen.
pub proof fn law_taking_control_crosses_the_edge(
    s: ArbiterState,
    x: i32,
    y: i32,
    w: i32,
    h: i32,
    start: u64,
    now: u64,
)
    requires
        s.dwell == Some((start, x, y)),
        !s.linked,
        2 <= w,
        0 <= h,
    ensures
        now - start < 150_000_000 ==> s.dwell_actions(now, w, h) == Seq::<Action>::empty()
            && s.after_dwell(now) == s,
        now - start >= 150_000_000 && s.layout == Layout::PeerRight ==> s.dwell_actions(now, w, h)
            == seq![
            Action::TakeControl { x: 0, y, src_w: w as u32, src_h: h as u32 },
            Action::Warp { x: 1, y },
        ],
        now - start >= 150_000_000 && s.layout == Layout::PeerLeft ==> s.dwell_actions(now, w, h)
            == seq![
            Action::TakeControl { x: (w - 1) as i32, y, src_w: w as u32, src_h: h as u32 },
            Action::Warp { x: (w - 2) as i32, y },
        ],
        now - start >= 150_000_000 ==> {
            let after = s.after_dwell(now);
            &&& after.linked && after.mode == Mode::Source
            &&& after.dwell is None && after.exit_pos == Some((x, y))
            &&& after.layout == s.layout && after.last == s.last
        },
{
}

/// During a round every movement away from the exit edge is played on the peer at the
/// very point, and every key, click and wheel turn as it is.
pub proof fn law_round_forwards_everything(
    s: ArbiterState,
    payload: Payload,
    x: i32,
    y: i32,
    w: i32,
    h: i32,
    now: u64,
)
    requires
        w >= 4,
        h >= 0,
        s.linked,
        s.mode == Mode::Source,
        s.layout == Layout::PeerLeft ==> x >= 2,
        s.layout == Layout::PeerRight ==> x < w - 2,
    ensures
        s.cursor_actions(x, y, w, h, now) == seq![
            Action::Forward(Payload::MouseMove { x, y, src_w: w as u32, src_h: h as u32 }),
        ],
        s.input_action(payload) == Action::Forward(payload),
        s.after_cursor(x, y, w, h, now).linked,
        s.after_cursor(x, y, w, h, now).last == Some((x, y, w, h)),
{
}

/// Outside a round nothing of this machine is played on the peer.
pub proof fn law_nothing_is_forwarded_outside_a_round(
    s: ArbiterState,
    payload: Payload,
    x: i32,
    y: i32,
    w: i32,
    h: i32,
    now: u64,
)
    requires
        !s.linked,
    ensures
        s.input_action(payload) == Action::Nothing,
        forall|i: int|
            0 <= i < s.cursor_actions(x, y, w, h, now).len() ==> !(#[trigger] s.cursor_actions(
                x,
                y,
                w,
                h,
                now,
            )[i] is Forward),
        !s.at_exit(x, y, w, h) ==> s.cursor_actions(x, y, w, h, now) == Seq::<Action>::empty(),
{
}

/// The rest on the exit edge is counted from the first point on it; a cursor that moves
/// along the edge goes on resting.
pub proof fn law_rest_is_counted_from_the_first_point(
    s: ArbiterState,
    x: i32,
    y: i32,
    w: i32,
    h: i32,
    now: u64,
    start: u64,
    rx: i32,
    ry: i32,
)
    requires
        s.at_exit(x, y, w, h),
    ensures
        s.dwell is None ==> s.after_cursor(x, y, w, h, now).dwell == Some((now, x, y)),
        s.dwell == Some((start, rx, ry)) && now - start < 150_000_000 ==> s.after_cursor(
            x,
            y,
            w,
            h,
            now,
        ).dwell == Some((start, rx, ry)),
{
}

/// When the peer takes control or gives it back, a running round is over at once, and a
/// rest of the injected cursor does not count any more.
pub proof fn law_peer_decides(s: ArbiterState)
    ensures
        s.after_peer_take().mode == Mode::Sink && !s.after_peer_take().linked
            && s.after_peer_take().sink_dwell is None && s.after_peer_take().sink_since is None,
        s.after_peer_release().mode == Mode::Source && !s.after_peer_release().linked
            && s.after_peer_release().sink_dwell is None,
        s.after_peer_take().exit_pos == s.exit_pos && s.after_peer_release().exit_pos == s.exit_pos,
        s.after_peer_take().layout == s.layout && s.after_peer_release().layout == s.layout,
{
}

} // verus!
