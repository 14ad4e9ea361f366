//! Rounds of control: each time one machine takes control of the other, a round
//! begins. Pointer frames travel apart from the messages that pass control, so they
//! carry the round that they belong to and a number within it.

use vstd::prelude::*;

use crate::net::udp::{merge_move, merged};
use crate::protocol::Payload;

verus! {

/// How long the peer has to confirm that it is ready, in nanoseconds.
pub const READY_TIMEOUT: u64 = 3_000_000_000;

/// The number after `n`.
pub open spec fn next_number(n: u64) -> u64 {
    if n == u64::MAX { 0 } else { (n + 1) as u64 }
}

fn to_next_number(n: u64) -> (r: u64)
    ensures
        r == next_number(n),
{
    if n == u64::MAX {
        0
    } else {
        n + 1
    }
}

/// Whether a payload is a movement of the mouse.
pub open spec fn is_mouse_move(p: Payload) -> bool {
    p is MouseMove || p is MouseMoveRelative
}

/// A movement as a frame of a round.
pub open spec fn frame_of(p: Payload, session: u64, seq: u64) -> Payload {
    match p {
        Payload::MouseMove { x, y, src_w, src_h } => Payload::PointerMove {
            session,
            seq,
            x,
            y,
            src_w,
            src_h,
        },
        Payload::MouseMoveRelative { dx, dy } => Payload::PointerMoveRelative {
            session,
            seq,
            dx,
            dy,
        },
        _ => p,
    }
}

/// The rounds as one machine knows them.
pub struct Rounds {
    /// The last round that this machine began.
    pub tx_session: u64,
    /// Since when the peer is to confirm that round.
    pub taken_at: Option<u64>,
    /// The number of the last frame in it.
    pub tx_seq: u64,
    /// What was moved before the peer was ready.
    pub held_back: Option<Payload>,
    /// The round of the peer that runs.
    pub rx_session: Option<u64>,
    /// The number of the last frame that was accepted in it.
    pub rx_seq: u64,
}

impl Rounds {
    pub open spec fn initial() -> Self {
        Rounds {
            tx_session: 0,
            taken_at: None,
            tx_seq: 0,
            held_back: None,
            rx_session: None,
            rx_seq: 0,
        }
    }

    /// After this machine began a round.
    pub open spec fn begun(self, now: u64) -> Self {
        Rounds {
            tx_session: next_number(self.tx_session),
            taken_at: Some(now),
            tx_seq: 0,
            held_back: None,
            rx_session: None,
            rx_seq: 0,
        }
    }

    /// The frame for the next movement.
    pub open spec fn next_frame(self, p: Payload) -> Payload {
        frame_of(p, self.tx_session, next_number(self.tx_seq))
    }

    /// After a movement: until the peer is ready it is kept.
    pub open spec fn after_move(self, p: Payload) -> Self {
        let frame = self.next_frame(p);
        Rounds {
            tx_seq: next_number(self.tx_seq),
            held_back: if self.taken_at is Some {
                Some(
                    match self.held_back {
                        Some(kept) => merged(kept, frame),
                        None => frame,
                    },
                )
            } else {
                self.held_back
            },
            ..self
        }
    }

    /// What is sent for a movement.
    pub open spec fn move_frame(self, p: Payload) -> Option<Payload> {
        if self.taken_at is Some { None } else { Some(self.next_frame(p)) }
    }

    /// Whether the peer's confirmation is the one that is waited for.
    pub open spec fn awaits(self, session: u64) -> bool {
        self.taken_at is Some && session == self.tx_session
    }

    /// After the peer confirmed a round.
    pub open spec fn after_ready(self, session: u64) -> Self {
        if self.awaits(session) {
            Rounds { taken_at: None, held_back: None, ..self }
        } else {
            self
        }
    }

    /// What is sent when the peer confirmed a round: what was moved meanwhile.
    pub open spec fn ready_frame(self, session: u64) -> Option<Payload> {
        if self.awaits(session) { self.held_back } else { None }
    }

    /// After whatever round there was has ended.
    pub open spec fn ended(self) -> Self {
        Rounds { taken_at: None, held_back: None, rx_session: None, rx_seq: 0, ..self }
    }

    /// After the peer began a round.
    pub open spec fn joined(self, session: u64) -> Self {
        Rounds {
            taken_at: None,
            held_back: None,
            rx_session: Some(session),
            rx_seq: 0,
            ..self
        }
    }

    /// Whether a frame of the peer counts: it is of the round that runs, and newer than
    /// every frame before it.
    pub open spec fn accepts(self, session: u64, seq: u64) -> bool {
        self.rx_session == Some(session) && seq > self.rx_seq
    }

    pub open spec fn after_frame(self, session: u64, seq: u64) -> Self {
        if self.accepts(session, seq) { Rounds { rx_seq: seq, ..self } } else { self }
    }

    /// The round that is given back: the peer's where one runs, else the own one.
    pub open spec fn current(self) -> u64 {
        match self.rx_session {
            Some(s) => s,
            None => self.tx_session,
        }
    }

    /// Whether the peer has not confirmed the round in time.
    pub open spec fn overdue(self, now: u64) -> bool {
        self.taken_at matches Some(t) && now - t >= READY_TIMEOUT
    }

    /// No round has begun.
    pub fn new() -> (r: Self)
        ensures
            r == Rounds::initial(),
    {
        Rounds {
            tx_session: 0,
            taken_at: None,
            tx_seq: 0,
            held_back: None,
            rx_session: None,
            rx_seq: 0,
        }
    }

    /// This machine begins a round. Returns its number.
    pub fn begin(&mut self, now: u64) -> (session: u64)
        ensures
            *final(self) == old(self).begun(now),
            session == final(self).tx_session,
    {
        self.tx_session = to_next_number(self.tx_session);
        self.taken_at = Some(now);
        self.tx_seq = 0;
        self.held_back = None;
        self.rx_session = None;
        self.rx_seq = 0;
        self.tx_session
    }

    /// The mouse moved in a round of this machine. Returns the frame to send.
    pub fn on_move(&mut self, p: Payload) -> (frame: Option<Payload>)
        requires
            is_mouse_move(p),
        ensures
            *final(self) == old(self).after_move(p),
            frame == old(self).move_frame(p),
    {
        self.tx_seq = to_next_number(self.tx_seq);
        let session: u64 = self.tx_session;
        let seq: u64 = self.tx_seq;
        let frame: Payload = match p {
            Payload::MouseMove { x, y, src_w, src_h } => Payload::PointerMove {
                session,
                seq,
                x,
                y,
                src_w,
                src_h,
            },
            Payload::MouseMoveRelative { dx, dy } => Payload::PointerMoveRelative {
                session,
                seq,
                dx,
                dy,
            },
            other => other,
        };
        if self.taken_at.is_some() {
            match self.held_back.take() {
                Some(kept) => {
                    let mut both = kept;
                    merge_move(&mut both, frame);
                    self.held_back = Some(both);
                },
                None => {
                    self.held_back = Some(frame);
                },
            }
            None
        } else {
            Some(frame)
        }
    }

    /// The peer confirmed a round. Returns the frame to send.
    pub fn on_ready(&mut self, session: u64) -> (frame: Option<Payload>)
        ensures
            *final(self) == old(self).after_ready(session),
            frame == old(self).ready_frame(session),
    {
        if self.taken_at.is_some() && session == self.tx_session {
            self.taken_at = None;
            self.held_back.take()
        } else {
            None
        }
    }

    /// Whatever round there was has ended.
    pub fn end(&mut self)
        ensures
            *final(self) == old(self).ended(),
    {
        self.taken_at = None;
        self.held_back = None;
        self.rx_session = None;
        self.rx_seq = 0;
    }

    /// The peer began a round.
    pub fn join(&mut self, session: u64)
        ensures
            *final(self) == old(self).joined(session),
    {
        self.taken_at = None;
        self.held_back = None;
        self.rx_session = Some(session);
        self.rx_seq = 0;
    }

    /// A frame of the peer came. Returns whether it counts.
    pub fn on_frame(&mut self, session: u64, seq: u64) -> (accepted: bool)
        ensures
            *final(self) == old(self).after_frame(session, seq),
            accepted == old(self).accepts(session, seq),
    {
        let current: bool = match self.rx_session {
            Some(s) => s == session,
            None => false,
        };
        if current && seq > self.rx_seq {
            self.rx_seq = seq;
            true
        } else {
            false
        }
    }

    /// The round that is given back.
    pub fn current_session(&self) -> (session: u64)
        ensures
            session == self.current(),
    {
        match self.rx_session {
            Some(s) => s,
            None => self.tx_session,
        }
    }

    /// Whether the peer has not confirmed the round in time.
    pub fn is_overdue(&self, now: u64) -> (r: bool)
        ensures
            r == self.overdue(now),
    {
        match self.taken_at {
            Some(t) => now >= t && now - t >= READY_TIMEOUT,
            None => false,
        }
    }
}

/// Nothing that is moved is sent before the peer has confirmed the round, and nothing
/// that is moved meanwhile is forgotten: it is sent with the confirmation.
pub proof fn law_moves_wait_for_the_peer(r: Rounds, p: Payload, now: u64)
    requires
        is_mouse_move(p),
    ensures
        r.begun(now).move_frame(p) is None,
        r.begun(now).after_move(p).taken_at is Some,
        r.begun(now).after_move(p).ready_frame(r.begun(now).tx_session) == Some(
            frame_of(p, r.begun(now).tx_session, 1),
        ),
        r.begun(now).after_move(p).after_ready(r.begun(now).tx_session).move_frame(p) is Some,
{
}

/// While the peer has not confirmed, no movement is sent, however many there are.
pub proof fn law_nothing_is_sent_while_waiting(r: Rounds, p: Payload, q: Payload)
    requires
        r.taken_at is Some,
        is_mouse_move(p),
        is_mouse_move(q),
    ensures
        r.move_frame(p) is None,
        r.after_move(p).move_frame(q) is None,
{
}

/// The number of a pointer frame and the round that it belongs to.
pub open spec fn frame_number(p: Payload) -> Option<(u64, u64)> {
    match p {
        Payload::PointerMove { session, seq, .. } => Some((session, seq)),
        Payload::PointerMoveRelative { session, seq, .. } => Some((session, seq)),
        _ => None,
    }
}

/// A peer that joined a round accepts the frames of that round in the order in which
/// they are sent, and each of them once.
pub proof fn law_frames_are_accepted_in_order(
    source: Rounds,
    sink: Rounds,
    p: Payload,
    q: Payload,
)
    requires
        is_mouse_move(p),
        is_mouse_move(q),
        source.tx_seq < u64::MAX - 1,
        sink.rx_session == Some(source.tx_session),
        sink.rx_seq <= source.tx_seq,
    ensures
        ({
            let session = source.tx_session;
            let n1 = frame_number(source.next_frame(p));
            let n2 = frame_number(source.after_move(p).next_frame(q));
            &&& n1 matches Some((s1, q1)) && n2 matches Some((s2, q2)) && {
                &&& s1 == session && s2 == session
                &&& sink.accepts(s1, q1)
                &&& sink.after_frame(s1, q1).accepts(s2, q2)
                &&& !sink.after_frame(s1, q1).accepts(s1, q1)
                &&& !sink.after_frame(s2, q2).accepts(s1, q1)
            }
        }),
{
}

/// Frames of an old round are refused once a new one began, and so is every frame
/// when no round runs.
pub proof fn law_old_rounds_are_refused(r: Rounds, session: u64, old_session: u64, seq: u64)
    requires
        session != old_session,
    ensures
        !r.joined(session).accepts(old_session, seq),
        !r.ended().accepts(session, seq),
        r.joined(session).accepts(session, seq) == (seq > 0),
{
}

/// A movement travels as a frame of its kind with the same place or distance.
pub proof fn law_frames_carry_the_movement(p: Payload, session: u64, seq: u64)
    ensures
        p matches Payload::MouseMove { x, y, src_w, src_h } ==> frame_of(p, session, seq) == (
        Payload::PointerMove { session, seq, x, y, src_w, src_h }),
        p matches Payload::MouseMoveRelative { dx, dy } ==> frame_of(p, session, seq) == (
        Payload::PointerMoveRelative { session, seq, dx, dy }),
{
}

/// Each round has the number after the last one and counts its frames from one. While it
/// waits for the peer nothing of an earlier round is kept, and no round of the peer runs.
pub proof fn law_rounds_are_counted(r: Rounds, now: u64, p: Payload)
    requires
        is_mouse_move(p),
    ensures
        r.tx_session < u64::MAX ==> r.begun(now).tx_session == r.tx_session + 1,
        r.tx_session == u64::MAX ==> r.begun(now).tx_session == 0,
        r.begun(now).taken_at == Some(now),
        r.begun(now).held_back is None,
        r.begun(now).rx_session is None,
        frame_number(r.begun(now).next_frame(p)) == Some((r.begun(now).tx_session, 1u64)),
        r.tx_seq < u64::MAX ==> r.after_move(p).tx_seq == r.tx_seq + 1 && frame_number(
            r.next_frame(p),
        ) == Some((r.tx_session, (r.tx_seq + 1) as u64)),
        r.after_move(p).tx_session == r.tx_session,
        r.after_move(p).taken_at == r.taken_at,
        r.after_move(p).rx_session == r.rx_session,
        Rounds::initial().tx_session == 0,
        Rounds::initial().taken_at is None,
        Rounds::initial().rx_session is None,
{
}

/// Once the peer is ready, each movement is sent at once and nothing is kept.
pub proof fn law_ready_rounds_send_at_once(r: Rounds, p: Payload)
    requires
        r.taken_at is None,
        is_mouse_move(p),
    ensures
        r.move_frame(p) == Some(r.next_frame(p)),
        r.after_move(p).held_back == r.held_back,
{
}

/// Only the confirmation of the round that waits counts. With it, what was kept is sent
/// and the waiting ends; any other changes nothing.
pub proof fn law_only_the_awaited_confirmation_counts(r: Rounds, session: u64)
    ensures
        r.taken_at is Some && session == r.tx_session ==> {
            &&& r.ready_frame(session) == r.held_back
            &&& r.after_ready(session).taken_at is None
            &&& r.after_ready(session).held_back is None
            &&& r.after_ready(session).tx_session == r.tx_session
            &&& r.after_ready(session).tx_seq == r.tx_seq
        },
        r.taken_at is None || session != r.tx_session ==> {
            &&& r.ready_frame(session) is None
            &&& r.after_ready(session) == r
        },
{
}

/// The round that is given back is the peer's where one runs, and otherwise the last one
/// of this machine. Joining a round of the peer ends the waiting for the own one.
pub proof fn law_which_round_is_given_back(r: Rounds, session: u64, now: u64)
    ensures
        r.joined(session).current() == session,
        r.joined(session).taken_at is None,
        r.joined(session).held_back is None,
        r.joined(session).tx_session == r.tx_session,
        r.begun(now).current() == r.begun(now).tx_session,
        r.ended().current() == r.tx_session,
        r.ended().taken_at is None,
        r.ended().held_back is None,
        r.ended().tx_session == r.tx_session,
{
}

/// A frame that counts becomes the newest; one that does not changes nothing.
pub proof fn law_newest_frame_is_remembered(r: Rounds, session: u64, seq: u64)
    ensures
        r.accepts(session, seq) ==> r.after_frame(session, seq).rx_seq == seq && r.after_frame(
            session,
            seq,
        ).rx_session == r.rx_session,
        !r.accepts(session, seq) ==> r.after_frame(session, seq) == r,
        r.accepts(session, seq) <==> (r.rx_session == Some(session) && r.rx_seq < seq),
{
}

/// A round that the peer has not confirmed within three seconds is overdue; one that does
/// not wait never is.
pub proof fn law_confirmations_are_due_in_time(r: Rounds, now: u64)
    ensures
        r.taken_at is None ==> !r.overdue(now),
        r.taken_at matches Some(t) ==> (r.overdue(now) <==> now >= t + 3000 * 1_000_000),
{
}

/// While the peer is not ready, what is moved is kept and not forgotten: distances add up,
/// and a place counts as the newest. What is kept has the number of the last movement.
pub proof fn law_kept_movements_add_up(r: Rounds, p: Payload, q: u64, a: i32, b: i32)
    requires
        r.taken_at is Some,
        is_mouse_move(p),
        r.tx_seq < u64::MAX,
        r.held_back is None || r.held_back == Some(
            Payload::PointerMoveRelative { session: r.tx_session, seq: q, dx: a, dy: b },
        ),
    ensures
        ({
            let kept = r.after_move(p).held_back;
            let seq = (r.tx_seq + 1) as u64;
            &&& kept is Some
            &&& r.held_back is None ==> kept == Some(frame_of(p, r.tx_session, seq))
            &&& p is MouseMove ==> kept == Some(frame_of(p, r.tx_session, seq))
            &&& p matches Payload::MouseMoveRelative { dx, dy } ==> (r.held_back is Some
                && -0x8000_0000 <= a + dx <= 0x7FFF_FFFF && -0x8000_0000 <= b + dy <= 0x7FFF_FFFF
                ==> kept == Some(
                Payload::PointerMoveRelative {
                    session: r.tx_session,
                    seq,
                    dx: (a + dx) as i32,
                    dy: (b + dy) as i32,
                },
            ))
        }),
{
}

} // verus!
