//! The router: it takes what is captured on this machine, what the clock says and
//! what the peer sends, and says what is to be done.

use vstd::prelude::*;

use crate::arbiter::{Action, Arbiter, ArbiterState, Layout, Mode, RETURN_MARGIN};
use crate::geometry::{map_coords, mapped_point, wrap_i32};
use crate::protocol::{Message, MsgKind, Payload};
use crate::rounds::Rounds;
use crate::selftest::{Selftest, SelftestState};
use crate::settings::Settings;
use crate::text::same_text;

verus! {

/// Something to be done.
#[derive(Debug, Clone, PartialEq)]
pub enum Command {
    HideCursor,
    ShowCursor,
    /// Hide the cursor again if something has shown it.
    KeepCursorHidden,
    /// Keep local input from this machine, or let it through.
    BlockInput(bool),
    /// The peer is in control of this machine, or no longer is.
    SinkActive(bool),
    /// Put the hidden cursor away.
    WarpAway { x: i32, y: i32 },
    /// Put the cursor where it left the screen.
    WarpBack { x: i32, y: i32 },
    /// Let go of everything that the peer holds down here.
    ResetKeyboard,
    /// Give up a drag that was to cross over.
    CancelDrag,
    /// Send a control message.
    Ctrl(Payload),
    /// Send an event on the reliable channel.
    Event(Payload),
    /// Send a pointer frame.
    Pointer(Payload),
    /// Play an event of the peer.
    Inject(Payload),
    /// The peer's clipboard changed.
    Clipboard(Payload),
    /// Play back a captured event, as a test.
    Echo(Payload),
}

/// What the router remembers.
pub struct RouterState {
    pub settings: Settings,
    pub selftest: bool,
    pub capture_ok: bool,
    /// There is a link to the peer.
    pub net: bool,
    /// Without it the cursor does not cross over.
    pub arbiter: Option<ArbiterState>,
    pub rounds: Rounds,
    pub tester: SelftestState,
}

/// What the router remembers, and what is to be done.
pub struct Outcome {
    pub state: RouterState,
    pub commands: Seq<Command>,
}

impl Outcome {
    /// One thing more to do.
    pub open spec fn then_do(self, c: Command) -> Self {
        Outcome { state: self.state, commands: self.commands.push(c) }
    }

    /// One thing more to do, where `on` holds.
    pub open spec fn then_do_if(self, on: bool, c: Command) -> Self {
        if on { self.then_do(c) } else { self }
    }

    pub open spec fn with_rounds(self, rounds: Rounds) -> Self {
        Outcome { state: RouterState { rounds, ..self.state }, commands: self.commands }
    }

    pub open spec fn with_arbiter(self, arbiter: ArbiterState) -> Self {
        Outcome {
            state: RouterState { arbiter: Some(arbiter), ..self.state },
            commands: self.commands,
        }
    }

    /// The frame of a movement is sent, if there is one.
    pub open spec fn then_send_frame(self, frame: Option<Payload>) -> Self {
        match frame {
            Some(f) => self.then_do(Command::Pointer(f)),
            None => self,
        }
    }

    /// The cursor is shown and local input reaches this machine again.
    pub open spec fn then_free(self) -> Self {
        self.then_do(Command::ShowCursor).then_do(Command::BlockInput(false)).then_do(
            Command::SinkActive(false),
        )
    }

    /// What an action of the arbiter means. Without a link it means nothing.
    pub open spec fn then_run(self, action: Action, now: u64) -> Self {
        let rounds = self.state.rounds;
        let was_sink = rounds.rx_session is Some;
        if !self.state.net {
            self
        } else {
            match action {
                Action::TakeControl { x, y, src_w, src_h } => {
                    let begun = rounds.begun(now);
                    self.with_rounds(begun).then_do(Command::HideCursor).then_do(
                        Command::BlockInput(true),
                    ).then_do(Command::SinkActive(false)).then_do_if(
                        was_sink,
                        Command::ResetKeyboard,
                    ).then_do(
                        Command::Ctrl(
                            Payload::TakeControl {
                                session: begun.tx_session,
                                x,
                                y,
                                src_w,
                                src_h,
                            },
                        ),
                    )
                },
                Action::ReleaseControl => self.with_rounds(rounds.ended()).then_free().then_do_if(
                    was_sink,
                    Command::ResetKeyboard,
                ).then_do(Command::Ctrl(Payload::ReleaseControl { session: rounds.current() })),
                Action::Warp { x, y } => self.then_do(Command::WarpAway { x, y }),
                Action::Forward(p) => match p {
                    Payload::MouseMove { .. } => self.with_rounds(
                        rounds.after_move(p),
                    ).then_send_frame(rounds.move_frame(p)),
                    Payload::MouseMoveRelative { .. } => self.with_rounds(
                        rounds.after_move(p),
                    ).then_send_frame(rounds.move_frame(p)),
                    _ => self.then_do(Command::Event(p)),
                },
                Action::Nothing => self,
            }
        }
    }

    /// What several actions mean, one after another.
    pub open spec fn then_run_all(self, actions: Seq<Action>, now: u64) -> Self
        decreases actions.len(),
    {
        if actions.len() == 0 {
            self
        } else {
            self.then_run_all(actions.drop_last(), now).then_run(actions.last(), now)
        }
    }
}

proof fn lemma_actions_keep_the_arbiter(o: Outcome, actions: Seq<Action>, now: u64)
    ensures
        o.then_run_all(actions, now).state == (RouterState {
            rounds: o.then_run_all(actions, now).state.rounds,
            ..o.state
        }),
    decreases actions.len(),
{
    if actions.len() > 0 {
        lemma_actions_keep_the_arbiter(o, actions.drop_last(), now);
    }
}

/// What is played back in a test.
pub open spec fn echo_commands(echoes: Seq<Payload>) -> Seq<Command> {
    echoes.map_values(|p: Payload| Command::Echo(p))
}

/// A payload whose position was scaled to a screen of `w` by `h` pixels.
pub open spec fn on_this_screen(p: Payload, w: i32, h: i32) -> Payload {
    match p {
        Payload::MouseMove { x, y, src_w, src_h } => scaled_move(x, y, src_w, src_h, w, h),
        _ => p,
    }
}

/// A position on the peer's screen, scaled to a screen of `w` by `h` pixels.
pub open spec fn scaled_move(x: i32, y: i32, src_w: u32, src_h: u32, w: i32, h: i32) -> Payload {
    let to = mapped_point(x as int, y as int, src_w, src_h, w as u32, h as u32);
    Payload::MouseMove {
        x: wrap_i32(to.0) as i32,
        y: wrap_i32(to.1) as i32,
        src_w: w as u32,
        src_h: h as u32,
    }
}

/// Whether a payload is about the clipboard.
pub open spec fn clipboard_payload(p: Payload) -> bool {
    p is ClipboardText || p is ClipboardImage || p is ClipboardClear || p is ClipboardFileOffer
        || p is ClipboardFiles
}

impl RouterState {
    pub open spec fn outcome(self) -> Outcome {
        Outcome { state: self, commands: Seq::empty() }
    }

    pub open spec fn is_sink(self) -> bool {
        self.arbiter matches Some(a) && a.mode == Mode::Sink
    }

    pub open spec fn is_linked(self) -> bool {
        self.arbiter matches Some(a) && a.linked
    }

    /// With a link to the peer.
    pub open spec fn with_link(self, layout: Option<Layout>) -> Self {
        RouterState {
            net: true,
            arbiter: match layout {
                Some(l) => Some(ArbiterState::initial(l)),
                None => None,
            },
            ..self
        }
    }

    /// Without a link to the peer.
    pub open spec fn without_link(self) -> Self {
        RouterState { net: false, arbiter: None, ..self }
    }

    /// The word for who is in control.
    pub open spec fn mode_word(self) -> Seq<char> {
        if self.is_sink() { "sink"@ } else { "source"@ }
    }

    /// An event was captured on this machine, whose screen has `w` by `h` pixels.
    pub open spec fn captured(self, p: Payload, w: i32, h: i32, now: u64) -> Outcome {
        if self.selftest {
            Outcome {
                state: RouterState { tester: self.tester.after(p), ..self },
                commands: echo_commands(self.tester.echoes(p)),
            }
        } else {
            match self.arbiter {
                Some(a) => match p {
                    Payload::MouseMove { x, y, .. } => self.outcome().with_arbiter(
                        a.after_cursor(x, y, w, h, now),
                    ).then_run_all(a.cursor_actions(x, y, w, h, now), now),
                    _ => self.outcome().then_run(a.input_action(p), now),
                },
                None => self.outcome(),
            }
        }
    }

    /// What the arbiter does about the clock.
    pub open spec fn clocked(
        self,
        a: ArbiterState,
        pos: Option<(i32, i32)>,
        w: i32,
        h: i32,
        now: u64,
    ) -> Outcome {
        if a.mode == Mode::Sink {
            self.outcome().with_arbiter(a.after_sink_tick(pos, w, h, now)).then_run_all(
                a.sink_tick_actions(pos, w, h, now),
                now,
            )
        } else {
            self.outcome().with_arbiter(a.after_tick(now)).then_run_all(a.tick_actions(now), now)
        }
    }

    /// The clock went on. The peer put the cursor at `pos` last. A round ends when the
    /// connection is lost, and when the peer does not confirm it in time.
    pub open spec fn ticked(
        self,
        pos: Option<(i32, i32)>,
        w: i32,
        h: i32,
        connected: bool,
        now: u64,
    ) -> Outcome {
        match self.arbiter {
            Some(a) => {
                let o = self.clocked(a, pos, w, h, now);
                let s = o.state;
                if !connected && (s.is_linked() || s.is_sink()) {
                    o.with_arbiter(s.arbiter->0.after_peer_release()).with_rounds(
                        s.rounds.ended(),
                    ).then_free().then_do_if(s.is_sink(), Command::ResetKeyboard)
                } else if s.rounds.overdue(now) {
                    o.with_arbiter(s.arbiter->0.after_peer_release()).with_rounds(
                        s.rounds.ended(),
                    ).then_free().then_do(
                        Command::Ctrl(Payload::ReleaseControl { session: s.rounds.tx_session }),
                    ).then_do(Command::CancelDrag)
                } else {
                    o.then_do_if(s.is_linked(), Command::KeepCursorHidden)
                }
            },
            None => self.outcome(),
        }
    }

    /// The peer takes control in the round `session`.
    pub open spec fn taken(
        self,
        session: u64,
        x: i32,
        y: i32,
        src_w: u32,
        src_h: u32,
        w: i32,
        h: i32,
    ) -> Outcome {
        let o = self.outcome().then_do(Command::ShowCursor).then_do(Command::BlockInput(false));
        match self.arbiter {
            Some(a) => o.with_arbiter(a.after_peer_take()).with_rounds(
                self.rounds.joined(session),
            ).then_do(Command::SinkActive(true)).then_do(
                Command::Inject(scaled_move(x, y, src_w, src_h, w, h)),
            ).then_do(Command::Ctrl(Payload::ControlReady { session })),
            None => o,
        }
    }

    /// Where the cursor comes back on a screen that is `w` wide: just inside the edge
    /// through which it left.
    pub open spec fn way_back(self, w: i32) -> Option<(i32, i32)> {
        match self.arbiter {
            Some(a) => match a.exit_pos {
                Some((_, y)) if a.linked => Some(
                    match a.layout {
                        Layout::PeerRight => ((w - 2) as i32, y),
                        Layout::PeerLeft => (1, y),
                    },
                ),
                _ => None,
            },
            None => None,
        }
    }

    /// The peer gives control back.
    pub open spec fn given_back(self, w: i32) -> Outcome {
        let o = self.outcome().then_free();
        match self.arbiter {
            Some(a) => {
                let p = o.with_arbiter(a.after_peer_release()).with_rounds(
                    self.rounds.ended(),
                ).then_do_if(self.is_sink(), Command::ResetKeyboard);
                match self.way_back(w) {
                    Some((x, y)) => p.then_do(Command::WarpBack { x, y }),
                    None => p,
                }
            },
            None => o,
        }
    }

    /// A frame of the peer came; it is played as `p` where it counts.
    pub open spec fn framed(self, session: u64, seq: u64, p: Payload) -> Outcome {
        if self.is_sink() {
            self.outcome().with_rounds(self.rounds.after_frame(session, seq)).then_do_if(
                self.rounds.accepts(session, seq),
                Command::Inject(p),
            )
        } else {
            self.outcome()
        }
    }

    /// A message of the machine `from` came, other than one about files.
    pub open spec fn received(self, from: Seq<char>, p: Payload, w: i32, h: i32) -> Outcome {
        match p {
            Payload::Heartbeat { .. } => self.outcome(),
            Payload::TakeControl { session, x, y, src_w, src_h } => self.taken(
                session,
                x,
                y,
                src_w,
                src_h,
                w,
                h,
            ),
            Payload::ControlReady { session } => self.outcome().with_rounds(
                self.rounds.after_ready(session),
            ).then_send_frame(self.rounds.ready_frame(session)),
            Payload::ReleaseControl { .. } => self.given_back(w),
            Payload::PointerMove { session, seq, x, y, src_w, src_h } => self.framed(
                session,
                seq,
                scaled_move(x, y, src_w, src_h, w, h),
            ),
            Payload::PointerMoveRelative { session, seq, dx, dy } => self.framed(
                session,
                seq,
                Payload::MouseMoveRelative { dx, dy },
            ),
            _ => if clipboard_payload(p) {
                self.outcome().then_do_if(
                    self.settings.clipboard_enabled && from != self.settings.name@,
                    Command::Clipboard(p),
                )
            } else {
                self.outcome().then_do_if(
                    self.is_sink(),
                    Command::Inject(on_this_screen(p, w, h)),
                )
            },
        }
    }
}

/// The router.
pub struct Router {
    pub settings: Settings,
    pub selftest: bool,
    pub capture_ok: bool,
    pub net: bool,
    pub arbiter: Option<Arbiter>,
    pub rounds: Rounds,
    pub tester: Selftest,
}

/// What an arbiter that may be there remembers.
pub open spec fn arbiter_state(a: Option<Arbiter>) -> Option<ArbiterState> {
    match a {
        Some(arbiter) => Some(arbiter@),
        None => None,
    }
}

impl View for Router {
    type V = RouterState;

    open spec fn view(&self) -> RouterState {
        RouterState {
            settings: self.settings,
            selftest: self.selftest,
            capture_ok: self.capture_ok,
            net: self.net,
            arbiter: arbiter_state(self.arbiter),
            rounds: self.rounds,
            tester: self.tester@,
        }
    }
}

/// Whether a screen has a size whose edges can be computed.
pub open spec fn sensible(w: i32, h: i32) -> bool {
    w >= i32::MIN + RETURN_MARGIN && h >= i32::MIN + RETURN_MARGIN
}

fn scale_move(x: i32, y: i32, src_w: u32, src_h: u32, w: i32, h: i32) -> (p: Payload)
    ensures
        p == scaled_move(x, y, src_w, src_h, w, h),
{
    let (mx, my) = map_coords(x, y, src_w, src_h, w as u32, h as u32);
    Payload::MouseMove { x: mx, y: my, src_w: w as u32, src_h: h as u32 }
}

fn push_free(out: &mut Vec<Command>)
    ensures
        final(out)@ == old(out)@.push(Command::ShowCursor).push(Command::BlockInput(false)).push(
            Command::SinkActive(false),
        ),
{
    out.push(Command::ShowCursor);
    out.push(Command::BlockInput(false));
    out.push(Command::SinkActive(false));
}

impl Router {
    pub open spec fn wf(&self) -> bool {
        &&& self.arbiter matches Some(a) ==> a.wf()
        &&& self.tester.wf()
    }

    /// A router with these settings, and without a link.
    pub fn new(settings: Settings) -> (r: Self)
        ensures
            r.wf(),
            r@ == (RouterState {
                settings,
                selftest: false,
                capture_ok: false,
                net: false,
                arbiter: None,
                rounds: Rounds::initial(),
                tester: SelftestState::initial(),
            }),
    {
        Router {
            settings,
            selftest: false,
            capture_ok: false,
            net: false,
            arbiter: None,
            rounds: Rounds::new(),
            tester: Selftest::new(),
        }
    }

    /// The link is taken down, before it is set up anew.
    pub fn unlink(&mut self)
        requires
            old(self).wf(),
        ensures
            final(self).wf(),
            final(self)@ == (RouterState { net: false, arbiter: None, ..old(self)@ }),
            final(self)@ == old(self)@.without_link(),
    {
        self.net = false;
        self.arbiter = None;
    }

    /// The link was set up; the cursor crosses over where the screens are arranged.
    pub fn link(&mut self, layout: Option<Layout>)
        requires
            old(self).wf(),
        ensures
            final(self).wf(),
            final(self)@ == (RouterState {
                net: true,
                arbiter: match layout {
                    Some(l) => Some(ArbiterState::initial(l)),
                    None => None,
                },
                ..old(self)@
            }),
            final(self)@ == old(self)@.with_link(layout),
    {
        self.net = true;
        self.arbiter = match layout {
            Some(l) => Some(Arbiter::new(l)),
            None => None,
        };
    }

    /// A control message of this machine.
    pub fn ctrl_message(&self, p: Payload) -> (m: Message)
        ensures
            m.kind == MsgKind::Ctrl,
            m.from@ == self@.settings.name@,
            m.payload == p,
    {
        Message::ctrl(&self.settings.name, p)
    }

    /// An event of this machine.
    pub fn event_message(&self, p: Payload) -> (m: Message)
        ensures
            m.kind == MsgKind::Event,
            m.from@ == self@.settings.name@,
            m.payload == p,
    {
        Message::event(&self.settings.name, p)
    }

    /// Carries out an action of the arbiter.
    fn execute_action(&mut self, action: Action, now: u64, out: &mut Vec<Command>)
        requires
            old(self).wf(),
        ensures
            final(self).wf(),
            ({
                let before = Outcome { state: old(self)@, commands: old(out)@ };
                let after = before.then_run(action, now);
                final(self)@ == after.state && final(out)@ == after.commands
            }),
    {
        if !self.net {
            return;
        }
        let was_sink = self.rounds.rx_session.is_some();
        match action {
            Action::TakeControl { x, y, src_w, src_h } => {
                let session: u64 = self.rounds.begin(now);
                out.push(Command::HideCursor);
                out.push(Command::BlockInput(true));
                out.push(Command::SinkActive(false));
                if was_sink {
                    out.push(Command::ResetKeyboard);
                }
                out.push(Command::Ctrl(Payload::TakeControl { session, x, y, src_w, src_h }));
            },
            Action::ReleaseControl => {
                let session: u64 = self.rounds.current_session();
                self.rounds.end();
                push_free(out);
                if was_sink {
                    out.push(Command::ResetKeyboard);
                }
                out.push(Command::Ctrl(Payload::ReleaseControl { session }));
            },
            Action::Warp { x, y } => {
                out.push(Command::WarpAway { x, y });
            },
            Action::Forward(p) => match p {
                Payload::MouseMove { .. } => {
                    match self.rounds.on_move(p) {
                        Some(frame) => {
                            out.push(Command::Pointer(frame));
                        },
                        None => {},
                    }
                },
                Payload::MouseMoveRelative { .. } => {
                    match self.rounds.on_move(p) {
                        Some(frame) => {
                            out.push(Command::Pointer(frame));
                        },
                        None => {},
                    }
                },
                other => {
                    out.push(Command::Event(other));
                },
            },
            Action::Nothing => {},
        }
    }

    fn execute_actions(&mut self, actions: Vec<Action>, now: u64, out: &mut Vec<Command>)
        requires
            old(self).wf(),
        ensures
            final(self).wf(),
            ({
                let before = Outcome { state: old(self)@, commands: old(out)@ };
                let after = before.then_run_all(actions@, now);
                final(self)@ == after.state && final(out)@ == after.commands
            }),
    {
        let ghost all = actions@;
        let ghost before = Outcome { state: self@, commands: out@ };
        assert(all.take(0) =~= Seq::<Action>::empty());
        for action in it: actions
            invariant
                self.wf(),
                it.seq() == all,
                (Outcome { state: self@, commands: out@ }) == before.then_run_all(
                    all.take(it.index()),
                    now,
                ),
        {
            proof {
                let n = it.index();
                assert(all.take(n + 1).drop_last() =~= all.take(n));
                assert(all.take(n + 1).last() == action);
            }
            self.execute_action(action, now, out);
        }
        assert(all.take(all.len() as int) =~= all);
    }

    /// An event was captured on this machine, whose screen has `w` by `h` pixels.
    pub fn on_captured(&mut self, payload: Payload, w: i32, h: i32, now: u64) -> (commands: Vec<
        Command,
    >)
        requires
            old(self).wf(),
            sensible(w, h),
        ensures
            final(self).wf(),
            final(self)@ == old(self)@.captured(payload, w, h, now).state,
            commands@ == old(self)@.captured(payload, w, h, now).commands,
    {
        let mut out: Vec<Command> = Vec::new();
        if self.selftest {
            let echoes = self.tester.selftest_loopback(payload);
            let ghost all = echoes@;
            for p in it: echoes
                invariant
                    it.seq() == all,
                    out@ == echo_commands(all.take(it.index())),
            {
                out.push(Command::Echo(p));
                assert(out@ =~= echo_commands(all.take(it.index() + 1)));
            }
            assert(all.take(all.len() as int) =~= all);
            return out;
        }
        match self.arbiter.take() {
            Some(a) => {
                let mut arbiter = a;
                match payload {
                    Payload::MouseMove { x, y, .. } => {
                        let actions = arbiter.on_cursor(x, y, w, h, now);
                        self.arbiter = Some(arbiter);
                        self.execute_actions(actions, now, &mut out);
                    },
                    other => {
                        let action = arbiter.on_input(other);
                        self.arbiter = Some(arbiter);
                        self.execute_action(action, now, &mut out);
                    },
                }
            },
            None => {},
        }
        out
    }

    /// The clock went on. The peer put the cursor at `pos` last.
    pub fn on_tick(
        &mut self,
        pos: Option<(i32, i32)>,
        w: i32,
        h: i32,
        connected: bool,
        now: u64,
    ) -> (commands: Vec<Command>)
        requires
            old(self).wf(),
            sensible(w, h),
        ensures
            final(self).wf(),
            final(self)@ == old(self)@.ticked(pos, w, h, connected, now).state,
            commands@ == old(self)@.ticked(pos, w, h, connected, now).commands,
    {
        let mut out: Vec<Command> = Vec::new();
        match self.arbiter.take() {
            Some(a) => {
                let mut arbiter = a;
                let actions: Vec<Action> = if arbiter.mode == Mode::Sink {
                    arbiter.on_sink_tick(pos, w, h, now)
                } else {
                    arbiter.on_tick(now)
                };
                self.arbiter = Some(arbiter);
                let ghost before = Outcome { state: self@, commands: out@ };
                let ghost acted = actions@;
                self.execute_actions(actions, now, &mut out);
                proof {
                    lemma_actions_keep_the_arbiter(before, acted, now);
                }
                self.check_round(connected, now, &mut out);
            },
            None => {},
        }
        out
    }

    /// Looks whether the round goes on: it ends when the connection is lost, and when
    /// the peer does not confirm it in time.
    fn check_round(&mut self, connected: bool, now: u64, out: &mut Vec<Command>)
        requires
            old(self).wf(),
            old(self)@.arbiter is Some,
        ensures
            final(self).wf(),
            ({
                let s = old(self)@;
                let o = Outcome { state: s, commands: old(out)@ };
                let after = if !connected && (s.is_linked() || s.is_sink()) {
                    o.with_arbiter(s.arbiter->0.after_peer_release()).with_rounds(
                        s.rounds.ended(),
                    ).then_free().then_do_if(s.is_sink(), Command::ResetKeyboard)
                } else if s.rounds.overdue(now) {
                    o.with_arbiter(s.arbiter->0.after_peer_release()).with_rounds(
                        s.rounds.ended(),
                    ).then_free().then_do(
                        Command::Ctrl(Payload::ReleaseControl { session: s.rounds.tx_session }),
                    ).then_do(Command::CancelDrag)
                } else {
                    o.then_do_if(s.is_linked(), Command::KeepCursorHidden)
                };
                final(self)@ == after.state && final(out)@ == after.commands
            }),
    {
        match self.arbiter.take() {
            Some(a) => {
                let mut arbiter = a;
                let sink = arbiter.mode == Mode::Sink;
                if !connected && (arbiter.linked || sink) {
                    arbiter.on_peer_release();
                    self.rounds.end();
                    push_free(out);
                    if sink {
                        out.push(Command::ResetKeyboard);
                    }
                } else if self.rounds.is_overdue(now) {
                    let session: u64 = self.rounds.tx_session;
                    arbiter.on_peer_release();
                    self.rounds.end();
                    push_free(out);
                    out.push(Command::Ctrl(Payload::ReleaseControl { session }));
                    out.push(Command::CancelDrag);
                } else if arbiter.linked {
                    out.push(Command::KeepCursorHidden);
                }
                self.arbiter = Some(arbiter);
            },
            None => {},
        }
    }

    fn is_sink_now(&self) -> (r: bool)
        ensures
            r == self@.is_sink(),
    {
        match &self.arbiter {
            Some(a) => a.mode == Mode::Sink,
            None => false,
        }
    }

    fn on_take(
        &mut self,
        session: u64,
        x: i32,
        y: i32,
        src_w: u32,
        src_h: u32,
        w: i32,
        h: i32,
    ) -> (out: Vec<Command>)
        requires
            old(self).wf(),
        ensures
            final(self).wf(),
            ({
                let o = old(self)@.taken(session, x, y, src_w, src_h, w, h);
                final(self)@ == o.state && out@ == o.commands
            }),
    {
        let mut out: Vec<Command> = Vec::new();
        out.push(Command::ShowCursor);
        out.push(Command::BlockInput(false));
        match self.arbiter.take() {
            Some(a) => {
                let mut arbiter = a;
                let _ = arbiter.on_peer_take(x, y);
                self.arbiter = Some(arbiter);
                self.rounds.join(session);
                out.push(Command::SinkActive(true));
                out.push(Command::Inject(scale_move(x, y, src_w, src_h, w, h)));
                out.push(Command::Ctrl(Payload::ControlReady { session }));
            },
            None => {},
        }
        out
    }

    fn on_release(&mut self, w: i32) -> (out: Vec<Command>)
        requires
            old(self).wf(),
            w >= i32::MIN + 2,
        ensures
            final(self).wf(),
            ({
                let o = old(self)@.given_back(w);
                final(self)@ == o.state && out@ == o.commands
            }),
    {
        let mut out: Vec<Command> = Vec::new();
        push_free(&mut out);
        match self.arbiter.take() {
            Some(a) => {
                let mut arbiter = a;
                let back: Option<(i32, i32)> = match arbiter.exit_pos {
                    Some((_, y)) => {
                        if arbiter.linked {
                            match arbiter.layout {
                                Layout::PeerRight => Some((w - 2, y)),
                                Layout::PeerLeft => Some((1, y)),
                            }
                        } else {
                            None
                        }
                    },
                    None => None,
                };
                if arbiter.mode == Mode::Sink {
                    out.push(Command::ResetKeyboard);
                }
                arbiter.on_peer_release();
                self.arbiter = Some(arbiter);
                self.rounds.end();
                match back {
                    Some((x, y)) => {
                        out.push(Command::WarpBack { x, y });
                    },
                    None => {},
                }
            },
            None => {},
        }
        out
    }

    fn on_pointer(&mut self, session: u64, seq: u64, p: Payload) -> (out: Vec<Command>)
        requires
            old(self).wf(),
        ensures
            final(self).wf(),
            ({
                let o = old(self)@.framed(session, seq, p);
                final(self)@ == o.state && out@ == o.commands
            }),
    {
        let mut out: Vec<Command> = Vec::new();
        if self.is_sink_now() {
            if self.rounds.on_frame(session, seq) {
                out.push(Command::Inject(p));
            }
        }
        out
    }

    /// A message of the machine `from` came, other than one about files. This machine's
    /// screen has `w` by `h` pixels.
    pub fn on_message(&mut self, from: &str, payload: Payload, w: i32, h: i32) -> (commands: Vec<
        Command,
    >)
        requires
            old(self).wf(),
            sensible(w, h),
        ensures
            final(self).wf(),
            final(self)@ == old(self)@.received(from@, payload, w, h).state,
            commands@ == old(self)@.received(from@, payload, w, h).commands,
    {
        let mut out: Vec<Command> = Vec::new();
        match payload {
            Payload::Heartbeat { .. } => out,
            Payload::TakeControl { session, x, y, src_w, src_h } => self.on_take(
                session,
                x,
                y,
                src_w,
                src_h,
                w,
                h,
            ),
            Payload::ControlReady { session } => {
                match self.rounds.on_ready(session) {
                    Some(frame) => {
                        out.push(Command::Pointer(frame));
                    },
                    None => {},
                }
                out
            },
            Payload::ReleaseControl { .. } => self.on_release(w),
            Payload::PointerMove { session, seq, x, y, src_w, src_h } => {
                let p = scale_move(x, y, src_w, src_h, w, h);
                self.on_pointer(session, seq, p)
            },
            Payload::PointerMoveRelative { session, seq, dx, dy } => self.on_pointer(
                session,
                seq,
                Payload::MouseMoveRelative { dx, dy },
            ),
            Payload::MouseMove { x, y, src_w, src_h } => {
                if self.is_sink_now() {
                    out.push(Command::Inject(scale_move(x, y, src_w, src_h, w, h)));
                }
                out
            },
            other => {
                let clipboard: bool = match &other {
                    Payload::ClipboardText { .. } => true,
                    Payload::ClipboardImage { .. } => true,
                    Payload::ClipboardClear => true,
                    Payload::ClipboardFileOffer { .. } => true,
                    Payload::ClipboardFiles { .. } => true,
                    _ => false,
                };
                if clipboard {
                    if self.settings.clipboard_enabled && !same_text(from, &self.settings.name) {
                        out.push(Command::Clipboard(other));
                    }
                } else if self.is_sink_now() {
                    out.push(Command::Inject(other));
                }
                out
            },
        }
    }

    /// Switches the self-test on or off.
    pub fn set_self_test(&mut self, enabled: bool) -> (r: bool)
        requires
            old(self).wf(),
        ensures
            final(self).wf(),
            final(self)@ == (RouterState { selftest: enabled, ..old(self)@ }),
            r == enabled,
    {
        self.selftest = enabled;
        enabled
    }

    /// What the user is shown of the link.
    pub fn net_status(&self, connected: bool, sent: u64, received: u64) -> (v: NetStatusView)
        ensures
            v.configured == self@.net,
            v.connected == (self@.net && connected),
            v.capture_ok == self@.capture_ok,
            v.mode@ == if self@.is_sink() { "sink"@ } else { "source"@ },
            v.mode@ == self@.mode_word(),
            v.linked == self@.is_linked(),
            v.sent == if self@.net { sent } else { 0 },
            v.received == if self@.net { received } else { 0 },
            v.cross_screen == (self@.arbiter is Some),
    {
        let linked: bool = match &self.arbiter {
            Some(a) => a.linked,
            None => false,
        };
        NetStatusView {
            configured: self.net,
            connected: self.net && connected,
            capture_ok: self.capture_ok,
            mode: if self.is_sink_now() { "sink".to_owned() } else { "source".to_owned() },
            linked,
            sent: if self.net { sent } else { 0 },
            received: if self.net { received } else { 0 },
            cross_screen: self.arbiter.is_some(),
        }
    }
}

/// What the user is shown of the link.
#[derive(Debug, Clone)]
pub struct NetStatusView {
    pub configured: bool,
    pub connected: bool,
    pub capture_ok: bool,
    pub mode: String,
    pub linked: bool,
    pub sent: u64,
    pub received: u64,
    pub cross_screen: bool,
}

/// What the commands so far have made of this machine.
pub struct Machine {
    /// Local input is kept from it.
    pub blocked: bool,
    /// The peer is in control of it.
    pub sink: bool,
    /// Its cursor is hidden.
    pub hidden: bool,
}

impl Machine {
    pub open spec fn step(self, c: Command) -> Self {
        match c {
            Command::HideCursor => Machine { hidden: true, ..self },
            Command::ShowCursor => Machine { hidden: false, ..self },
            Command::BlockInput(b) => Machine { blocked: b, ..self },
            Command::SinkActive(b) => Machine { sink: b, ..self },
            _ => self,
        }
    }

    pub open spec fn after(self, commands: Seq<Command>) -> Self
        decreases commands.len(),
    {
        if commands.len() == 0 {
            self
        } else {
            self.after(commands.drop_last()).step(commands.last())
        }
    }

    /// Whether the machine is as the router thinks it is: its cursor is hidden and its
    /// input kept from it exactly while it controls the peer, and it is known to be
    /// controlled exactly while it is.
    pub open spec fn fits(self, s: RouterState) -> bool {
        &&& self.blocked == s.is_linked()
        &&& self.hidden == s.is_linked()
        &&& self.sink == s.is_sink()
        &&& s.arbiter is Some ==> s.net
        &&& !(s.is_linked() && s.is_sink())
    }
}

broadcast proof fn lemma_one_more_command(m: Machine, commands: Seq<Command>, c: Command)
    ensures
        #[trigger] m.after(commands.push(c)) == m.after(commands).step(c),
{
    assert(commands.push(c).drop_last() =~= commands);
}

proof fn lemma_echoes_change_nothing(m: Machine, echoes: Seq<Payload>)
    ensures
        m.after(echo_commands(echoes)) == m,
    decreases echoes.len(),
{
    if echoes.len() > 0 {
        lemma_echoes_change_nothing(m, echoes.drop_last());
        assert(echo_commands(echoes).drop_last() =~= echo_commands(echoes.drop_last()));
    }
}

proof fn lemma_run_none(o: Outcome, now: u64)
    ensures
        o.then_run_all(Seq::empty(), now) == o,
{
}

proof fn lemma_run_one(o: Outcome, a: Action, now: u64)
    ensures
        o.then_run_all(seq![a], now) == o.then_run(a, now),
{
    assert(seq![a].drop_last() =~= Seq::<Action>::empty());
    lemma_run_none(o, now);
}

proof fn lemma_run_two(o: Outcome, a: Action, b: Action, now: u64)
    ensures
        o.then_run_all(seq![a, b], now) == o.then_run(a, now).then_run(b, now),
{
    assert(seq![a, b].drop_last() =~= seq![a]);
    lemma_run_one(o, a, now);
}

/// Whatever is captured, the machine stays as the router thinks it is.
pub proof fn law_machine_fits_after_capture(
    m: Machine,
    s: RouterState,
    p: Payload,
    w: i32,
    h: i32,
    now: u64,
)
    requires
        m.fits(s),
    ensures
        m.after(s.captured(p, w, h, now).commands).fits(s.captured(p, w, h, now).state),
{
    broadcast use lemma_one_more_command;

    if s.selftest {
        lemma_echoes_change_nothing(m, s.tester.echoes(p));
    } else if s.arbiter is Some {
        let a = s.arbiter->0;
        if let Payload::MouseMove { x, y, .. } = p {
            let o = s.outcome().with_arbiter(a.after_cursor(x, y, w, h, now));
            lemma_few_actions(o, a.cursor_actions(x, y, w, h, now), now);
        }
    }
}

proof fn lemma_few_actions(o: Outcome, actions: Seq<Action>, now: u64)
    ensures
        actions.len() == 0 ==> o.then_run_all(actions, now) == o,
        actions.len() == 1 ==> o.then_run_all(actions, now) == o.then_run(actions[0], now),
        actions.len() == 2 ==> o.then_run_all(actions, now) == o.then_run(actions[0], now).then_run(
            actions[1],
            now,
        ),
{
    if actions.len() == 0 {
        assert(actions =~= Seq::<Action>::empty());
        lemma_run_none(o, now);
    } else if actions.len() == 1 {
        assert(actions =~= seq![actions[0]]);
        lemma_run_one(o, actions[0], now);
    } else if actions.len() == 2 {
        assert(actions =~= seq![actions[0], actions[1]]);
        lemma_run_two(o, actions[0], actions[1], now);
    }
}

/// Whenever the clock goes on, the machine stays as the router thinks it is; and when
/// the connection is lost it is free: nothing is hidden or kept from it.
pub proof fn law_machine_fits_after_tick(
    m: Machine,
    s: RouterState,
    pos: Option<(i32, i32)>,
    w: i32,
    h: i32,
    connected: bool,
    now: u64,
)
    requires
        m.fits(s),
    ensures
        ({
            let o = s.ticked(pos, w, h, connected, now);
            let after = m.after(o.commands);
            &&& after.fits(o.state)
            &&& !connected && s.arbiter is Some ==> !after.blocked && !after.sink && !after.hidden
        }),
{
    broadcast use lemma_one_more_command;

    if s.arbiter is Some {
        let a = s.arbiter->0;
        let o = if a.mode == Mode::Sink {
            s.outcome().with_arbiter(a.after_sink_tick(pos, w, h, now))
        } else {
            s.outcome().with_arbiter(a.after_tick(now))
        };
        let actions = if a.mode == Mode::Sink {
            a.sink_tick_actions(pos, w, h, now)
        } else {
            a.tick_actions(now)
        };
        lemma_few_actions(o, actions, now);
        let c = s.clocked(a, pos, w, h, now);
        assert(c == o.then_run_all(actions, now));
        assert(m.after(c.commands).fits(c.state));
    }
}

/// Whatever the peer sends, the machine stays as the router thinks it is.
pub proof fn law_machine_fits_after_message(
    m: Machine,
    s: RouterState,
    from: Seq<char>,
    p: Payload,
    w: i32,
    h: i32,
)
    requires
        m.fits(s),
    ensures
        m.after(s.received(from, p, w, h).commands).fits(s.received(from, p, w, h).state),
{
    broadcast use lemma_one_more_command;

}

/// Control passes over: the peer that is asked becomes the sink, puts its cursor where
/// it is told and confirms the round; the confirmation is the one that was waited for,
/// and from then on the peer accepts the frames of the round.
pub proof fn law_control_passes_over(
    a: RouterState,
    b: RouterState,
    x: i32,
    y: i32,
    src_w: u32,
    src_h: u32,
    w: i32,
    h: i32,
    now: u64,
    seq: u64,
)
    requires
        a.net,
        b.arbiter is Some,
        seq > 0,
    ensures
        ({
            let asked = a.outcome().then_run(Action::TakeControl { x, y, src_w, src_h }, now);
            let session = asked.state.rounds.tx_session;
            let ask = Payload::TakeControl { session, x, y, src_w, src_h };
            let answered = b.received(a.settings.name@, ask, w, h);
            let answer = Payload::ControlReady { session };
            let done = asked.state.received(b.settings.name@, answer, w, h);
            &&& asked.commands.last() == Command::Ctrl(ask)
            &&& answered.state.is_sink()
            &&& answered.commands.contains(
                Command::Inject(scaled_move(x, y, src_w, src_h, w, h)),
            )
            &&& answered.commands.last() == Command::Ctrl(answer)
            &&& asked.state.rounds.taken_at is Some
            &&& done.state.rounds.taken_at is None
            &&& answered.state.rounds.accepts(session, seq)
        }),
{
    let asked = a.outcome().then_run(Action::TakeControl { x, y, src_w, src_h }, now);
    let session = asked.state.rounds.tx_session;
    let ask = Payload::TakeControl { session, x, y, src_w, src_h };
    let answered = b.received(a.settings.name@, ask, w, h);
    assert(answered.commands[3] == Command::Inject(scaled_move(x, y, src_w, src_h, w, h)));
}

/// A machine plays the peer's input only while the peer controls it: the one exception
/// is the entry of the cursor with which control begins.
pub proof fn law_only_a_sink_plays_input(
    s: RouterState,
    from: Seq<char>,
    p: Payload,
    w: i32,
    h: i32,
    i: int,
)
    requires
        0 <= i < s.received(from, p, w, h).commands.len(),
        s.received(from, p, w, h).commands[i] is Inject,
    ensures
        s.is_sink() || p is TakeControl,
{
}

/// What this machine shared itself is never written to its own clipboard.
pub proof fn law_own_copies_do_not_come_back(s: RouterState, p: Payload, w: i32, h: i32)
    requires
        clipboard_payload(p),
    ensures
        s.received(s.settings.name@, p, w, h).commands == Seq::<Command>::empty(),
        s.received(s.settings.name@, p, w, h).state == s,
{
}

/// Setting up the link makes the cursor cross over exactly where the screens are
/// arranged, on the side where the peer stands, and with this machine in control of
/// itself alone. Without a link nothing crosses over. The rest stays.
pub proof fn law_link_is_set_up_as_arranged(s: RouterState, layout: Option<Layout>)
    ensures
        s.with_link(layout).net,
        s.with_link(layout).arbiter is Some <==> layout is Some,
        layout matches Some(l) ==> s.with_link(layout).arbiter->0.layout == l
            && !s.with_link(layout).arbiter->0.linked && s.with_link(layout).arbiter->0.mode
            == Mode::Source,
        s.with_link(layout).settings == s.settings,
        s.with_link(layout).rounds == s.rounds,
        !s.without_link().net,
        s.without_link().arbiter is None,
        s.without_link().settings == s.settings,
        s.is_sink() ==> s.mode_word() == "sink"@,
        !s.is_sink() ==> s.mode_word() == "source"@,
{
}

/// Taking control hides the cursor here, keeps local input from this machine, lets go of
/// what the peer held down if the peer was in control, and asks the peer with the new
/// round and the place where the cursor is to enter.
pub proof fn law_what_taking_control_does(
    o: Outcome,
    x: i32,
    y: i32,
    src_w: u32,
    src_h: u32,
    now: u64,
)
    requires
        o.state.net,
    ensures
        ({
            let after = o.then_run(Action::TakeControl { x, y, src_w, src_h }, now);
            let session = after.state.rounds.tx_session;
            let ask = Command::Ctrl(Payload::TakeControl { session, x, y, src_w, src_h });
            &&& after.commands == o.commands + (if o.state.rounds.rx_session is Some {
                seq![
                    Command::HideCursor,
                    Command::BlockInput(true),
                    Command::SinkActive(false),
                    Command::ResetKeyboard,
                    ask,
                ]
            } else {
                seq![
                    Command::HideCursor,
                    Command::BlockInput(true),
                    Command::SinkActive(false),
                    ask,
                ]
            })
            &&& after.state.rounds.taken_at == Some(now)
            &&& o.state.rounds.tx_session < u64::MAX ==> session == o.state.rounds.tx_session + 1
            &&& after.state.rounds.rx_session is None
            &&& after.state.arbiter == o.state.arbiter
            &&& after.state.settings == o.state.settings
        }),
{
}

/// Giving control back shows the cursor, lets local input through, lets go of what the
/// peer held down if the peer was in control, and tells the peer which round has ended:
/// its own where one runs, else the last one of this machine.
pub proof fn law_what_releasing_control_does(o: Outcome, now: u64)
    requires
        o.state.net,
    ensures
        ({
            let after = o.then_run(Action::ReleaseControl, now);
            &&& o.state.rounds.rx_session matches Some(s) ==> after.commands == o.commands + seq![
                Command::ShowCursor,
                Command::BlockInput(false),
                Command::SinkActive(false),
                Command::ResetKeyboard,
                Command::Ctrl(Payload::ReleaseControl { session: s }),
            ]
            &&& o.state.rounds.rx_session is None ==> after.commands == o.commands + seq![
                Command::ShowCursor,
                Command::BlockInput(false),
                Command::SinkActive(false),
                Command::Ctrl(Payload::ReleaseControl { session: o.state.rounds.tx_session }),
            ]
            &&& after.state.rounds.rx_session is None
            &&& after.state.rounds.taken_at is None
            &&& after.state.rounds.held_back is None
            &&& after.state.rounds.tx_session == o.state.rounds.tx_session
            &&& after.state.arbiter == o.state.arbiter
        }),
{
}

/// What is forwarded is sent as it is: movements as pointer frames of the running round,
/// once the peer is ready, and everything else as an event. The hidden cursor is put
/// where the arbiter wants it. Without a link nothing is done.
pub proof fn law_what_forwarding_does(o: Outcome, p: Payload, x: i32, y: i32, now: u64)
    requires
        o.state.net,
    ensures
        !(p is MouseMove) && !(p is MouseMoveRelative) ==> {
            &&& o.then_run(Action::Forward(p), now).commands == o.commands.push(Command::Event(p))
            &&& o.then_run(Action::Forward(p), now).state == o.state
        },
        p matches Payload::MouseMove { x: px, y: py, src_w, src_h } ==> o.state.rounds.taken_at
            is None && o.state.rounds.tx_seq < u64::MAX ==> o.then_run(Action::Forward(p), now).commands
            == o.commands.push(
            Command::Pointer(
                Payload::PointerMove {
                    session: o.state.rounds.tx_session,
                    seq: (o.state.rounds.tx_seq + 1) as u64,
                    x: px,
                    y: py,
                    src_w,
                    src_h,
                },
            ),
        ),
        p matches Payload::MouseMoveRelative { dx, dy } ==> o.state.rounds.taken_at is None
            && o.state.rounds.tx_seq < u64::MAX ==> o.then_run(Action::Forward(p), now).commands
            == o.commands.push(
            Command::Pointer(
                Payload::PointerMoveRelative {
                    session: o.state.rounds.tx_session,
                    seq: (o.state.rounds.tx_seq + 1) as u64,
                    dx,
                    dy,
                },
            ),
        ),
        (p is MouseMove || p is MouseMoveRelative) && o.state.rounds.taken_at is Some
            ==> o.then_run(Action::Forward(p), now).commands == o.commands,
        o.then_run(Action::Warp { x, y }, now).commands == o.commands.push(
            Command::WarpAway { x, y },
        ),
        o.then_run(Action::Nothing, now) == o,
{
}

/// Without a link no action of the arbiter does anything; several actions are carried out
/// in their order.
pub proof fn law_actions_are_carried_out_in_order(
    o: Outcome,
    actions: Seq<Action>,
    last: Action,
    now: u64,
)
    ensures
        !o.state.net ==> o.then_run(last, now) == o,
        o.then_run_all(Seq::empty(), now) == o,
        o.then_run_all(actions.push(last), now) == o.then_run_all(actions, now).then_run(last, now),
{
    assert(actions.push(last).drop_last() =~= actions);
}

/// Captured input goes to the self-test while that runs, and to the arbiter otherwise:
/// the place of the cursor as it is, and everything else as input. Without an arbiter it
/// stays on this machine.
pub proof fn law_where_captured_input_goes(s: RouterState, p: Payload, w: i32, h: i32, now: u64)
    ensures
        s.selftest ==> {
            let o = s.captured(p, w, h, now);
            &&& o.state.arbiter == s.arbiter
            &&& o.state.rounds == s.rounds
            &&& o.commands.len() == s.tester.echoes(p).len()
            &&& forall|i: int|
                0 <= i < o.commands.len() ==> #[trigger] o.commands[i] == Command::Echo(
                    s.tester.echoes(p)[i],
                )
        },
        !s.selftest && s.arbiter is None ==> s.captured(p, w, h, now).state == s && s.captured(
            p,
            w,
            h,
            now,
        ).commands.len() == 0,
        !s.selftest && s.arbiter is Some ==> {
            let a = s.arbiter->0;
            let o = Outcome { state: s, commands: Seq::empty() };
            &&& p matches Payload::MouseMove { x, y, .. } ==> s.captured(p, w, h, now)
                == o.with_arbiter(a.after_cursor(x, y, w, h, now)).then_run_all(
                a.cursor_actions(x, y, w, h, now),
                now,
            )
            &&& !(p is MouseMove) ==> s.captured(p, w, h, now) == o.then_run(
                a.input_action(p),
                now,
            )
        },
{
}

/// When the peer takes control, this machine shows its cursor and lets its input through,
/// is known to be controlled, puts the cursor where it enters, scaled to its screen, and
/// confirms that very round.
pub proof fn law_what_being_taken_does(
    s: RouterState,
    from: Seq<char>,
    session: u64,
    x: i32,
    y: i32,
    src_w: u32,
    src_h: u32,
    w: i32,
    h: i32,
)
    ensures
        ({
            let p = Payload::TakeControl { session, x, y, src_w, src_h };
            let o = s.received(from, p, w, h);
            &&& s.arbiter is Some ==> {
                &&& o.commands == seq![
                    Command::ShowCursor,
                    Command::BlockInput(false),
                    Command::SinkActive(true),
                    Command::Inject(scaled_move(x, y, src_w, src_h, w, h)),
                    Command::Ctrl(Payload::ControlReady { session }),
                ]
                &&& o.state.is_sink()
                &&& !o.state.is_linked()
                &&& o.state.rounds.rx_session == Some(session)
                &&& o.state.rounds.rx_seq == 0
                &&& o.state.rounds.taken_at is None
            }
            &&& s.arbiter is None ==> o.state == s && o.commands == seq![
                Command::ShowCursor,
                Command::BlockInput(false),
            ]
        }),
{
    let p = Payload::TakeControl { session, x, y, src_w, src_h };
    let o = s.received(from, p, w, h);
    if s.arbiter is Some {
        assert(o.commands =~= seq![
            Command::ShowCursor,
            Command::BlockInput(false),
            Command::SinkActive(true),
            Command::Inject(scaled_move(x, y, src_w, src_h, w, h)),
            Command::Ctrl(Payload::ControlReady { session }),
        ]);
    } else {
        assert(o.commands =~= seq![Command::ShowCursor, Command::BlockInput(false)]);
    }
}

/// A place on the peer's screen is played at the same proportion of this screen, and a
/// distance as it is.
pub proof fn law_places_are_scaled_to_this_screen(
    x: i32,
    y: i32,
    src_w: u32,
    src_h: u32,
    w: i32,
    h: i32,
    p: Payload,
)
    ensures
        scaled_move(x, y, src_w, src_h, w, h) matches Payload::MouseMove {
            x: px,
            y: py,
            src_w: pw,
            src_h: ph,
        } && pw == w as u32 && ph == h as u32 && px == wrap_i32(
            mapped_point(x as int, y as int, src_w, src_h, w as u32, h as u32).0,
        ) && py == wrap_i32(
            mapped_point(x as int, y as int, src_w, src_h, w as u32, h as u32).1,
        ),
        on_this_screen(Payload::MouseMove { x, y, src_w, src_h }, w, h) == scaled_move(
            x,
            y,
            src_w,
            src_h,
            w,
            h,
        ),
        !(p is MouseMove) ==> on_this_screen(p, w, h) == p,
{
}

/// When the peer gives control back, this machine is free, and its cursor appears just
/// inside the edge through which it left, at the height at which it left.
pub proof fn law_what_being_released_does(
    s: RouterState,
    from: Seq<char>,
    session: u64,
    w: i32,
    h: i32,
)
    requires
        w >= i32::MIN + 2,
    ensures
        ({
            let o = s.received(from, Payload::ReleaseControl { session }, w, h);
            let free = seq![
                Command::ShowCursor,
                Command::BlockInput(false),
                Command::SinkActive(false),
            ];
            &&& !o.state.is_sink() && !o.state.is_linked()
            &&& s.arbiter is None ==> o.state == s && o.commands == free
            &&& s.arbiter matches Some(a) ==> {
                &&& o.state.rounds.rx_session is None
                &&& o.state.rounds.taken_at is None
                &&& a.mode == Mode::Sink && !a.linked ==> o.commands == free.push(
                    Command::ResetKeyboard,
                )
                &&& a.mode != Mode::Sink && (!a.linked || a.exit_pos is None) ==> o.commands == free
                &&& a.mode != Mode::Sink && a.linked && a.layout == Layout::PeerRight && a.exit_pos
                    is Some ==> o.commands == free.push(
                    Command::WarpBack { x: (w - 2) as i32, y: (a.exit_pos->0).1 },
                )
                &&& a.mode != Mode::Sink && a.linked && a.layout == Layout::PeerLeft && a.exit_pos
                    is Some ==> o.commands == free.push(
                    Command::WarpBack { x: 1, y: (a.exit_pos->0).1 },
                )
            }
        }),
{
    let o = s.received(from, Payload::ReleaseControl { session }, w, h);
    let free = seq![Command::ShowCursor, Command::BlockInput(false), Command::SinkActive(false)];
    assert(s.outcome().then_free().commands =~= free);
}

/// A pointer frame is played while the peer is in control, if it is of its round and newer
/// than those before; otherwise nothing happens.
pub proof fn law_what_pointer_frames_do(
    s: RouterState,
    from: Seq<char>,
    session: u64,
    seq: u64,
    x: i32,
    y: i32,
    src_w: u32,
    src_h: u32,
    w: i32,
    h: i32,
)
    ensures
        ({
            let counts = s.is_sink() && s.rounds.rx_session == Some(session) && seq
                > s.rounds.rx_seq;
            let place = s.received(
                from,
                Payload::PointerMove { session, seq, x, y, src_w, src_h },
                w,
                h,
            );
            let distance = s.received(
                from,
                Payload::PointerMoveRelative { session, seq, dx: x, dy: y },
                w,
                h,
            );
            &&& counts ==> {
                &&& place.commands == seq![Command::Inject(scaled_move(x, y, src_w, src_h, w, h))]
                &&& distance.commands == seq![
                    Command::Inject(Payload::MouseMoveRelative { dx: x, dy: y }),
                ]
                &&& place.state.rounds.rx_seq == seq
                &&& distance.state.rounds.rx_seq == seq
            }
            &&& !counts ==> {
                &&& place.commands.len() == 0
                &&& distance.commands.len() == 0
                &&& place.state == s
                &&& distance.state == s
            }
        }),
{
}

/// Other input of the peer is played as it is while the peer is in control. Its clipboard
/// counts where clipboards are shared and the message is not this machine's own. A
/// heartbeat does nothing.
pub proof fn law_what_other_messages_do(
    s: RouterState,
    from: Seq<char>,
    p: Payload,
    session: u64,
    w: i32,
    h: i32,
)
    ensures
        p is Heartbeat ==> s.received(from, p, w, h).commands.len() == 0,
        p is MouseButton || p is MouseWheel || p is Key || p is Shortcut || p is MouseMoveRelative
            ==> s.received(from, p, w, h).commands == (if s.is_sink() {
            seq![Command::Inject(p)]
        } else {
            Seq::empty()
        }),
        p matches Payload::MouseMove { x, y, src_w, src_h } ==> s.received(from, p, w, h).commands
            == (if s.is_sink() {
            seq![Command::Inject(scaled_move(x, y, src_w, src_h, w, h))]
        } else {
            Seq::empty()
        }),
        p is ClipboardText || p is ClipboardImage || p is ClipboardClear || p is ClipboardFileOffer
            || p is ClipboardFiles ==> s.received(from, p, w, h).commands == (
        if s.settings.clipboard_enabled && from != s.settings.name@ {
            seq![Command::Clipboard(p)]
        } else {
            Seq::empty()
        }),
        !(p is TakeControl) && !(p is ControlReady) && !(p is ReleaseControl) && !(p is PointerMove)
            && !(p is PointerMoveRelative) ==> s.received(from, p, w, h).state == s,
        s.rounds.taken_at is Some && session == s.rounds.tx_session && s.rounds.held_back is Some
            ==> s.received(from, Payload::ControlReady { session }, w, h).commands == seq![
            Command::Pointer(s.rounds.held_back->0),
        ],
        s.rounds.taken_at is None || session != s.rounds.tx_session || s.rounds.held_back is None
            ==> s.received(from, Payload::ControlReady { session }, w, h).commands.len() == 0,
{
}

/// A lost connection ends the round on this machine: it is free, and lets go of what the
/// peer held down if the peer was in control.
pub proof fn law_lost_connections_end_the_round(
    s: RouterState,
    a: ArbiterState,
    pos: Option<(i32, i32)>,
    w: i32,
    h: i32,
    now: u64,
)
    requires
        s.arbiter == Some(a),
        s.clocked(a, pos, w, h, now).state.is_linked() || s.clocked(
            a,
            pos,
            w,
            h,
            now,
        ).state.is_sink(),
    ensures
        ({
            let before = s.clocked(a, pos, w, h, now);
            let o = s.ticked(pos, w, h, false, now);
            let free = seq![
                Command::ShowCursor,
                Command::BlockInput(false),
                Command::SinkActive(false),
            ];
            &&& !o.state.is_linked() && !o.state.is_sink()
            &&& o.state.rounds.rx_session is None
            &&& o.state.rounds.taken_at is None
            &&& o.commands == before.commands + (if before.state.is_sink() {
                free.push(Command::ResetKeyboard)
            } else {
                free
            })
        }),
{
}

/// A round that the peer does not confirm in time is given up: this machine is free, the
/// peer is told that the round has ended, and a drag that was to cross over is given up.
pub proof fn law_unconfirmed_rounds_are_given_up(
    s: RouterState,
    a: ArbiterState,
    pos: Option<(i32, i32)>,
    w: i32,
    h: i32,
    now: u64,
)
    requires
        s.arbiter == Some(a),
    ensures
        ({
            let before = s.clocked(a, pos, w, h, now);
            let o = s.ticked(pos, w, h, true, now);
            let overdue = before.state.rounds.taken_at matches Some(t) && now >= t + 3000
                * 1_000_000;
            &&& overdue ==> {
                &&& o.commands == before.commands + seq![
                    Command::ShowCursor,
                    Command::BlockInput(false),
                    Command::SinkActive(false),
                    Command::Ctrl(
                        Payload::ReleaseControl { session: before.state.rounds.tx_session },
                    ),
                    Command::CancelDrag,
                ]
                &&& !o.state.is_linked() && !o.state.is_sink()
                &&& o.state.rounds.taken_at is None
            }
            &&& !overdue ==> {
                &&& o.state == before.state
                &&& o.commands == before.commands + (if before.state.is_linked() {
                    seq![Command::KeepCursorHidden]
                } else {
                    Seq::empty()
                })
            }
        }),
{
    lemma_actions_keep_the_arbiter(
        s.outcome().with_arbiter(a.after_sink_tick(pos, w, h, now)),
        a.sink_tick_actions(pos, w, h, now),
        now,
    );
    lemma_actions_keep_the_arbiter(
        s.outcome().with_arbiter(a.after_tick(now)),
        a.tick_actions(now),
        now,
    );
    let before = s.clocked(a, pos, w, h, now);
    assert(before.commands + Seq::<Command>::empty() =~= before.commands);
}

/// The clock drives the arbiter by the place of the cursor while the peer is in control,
/// and by the time alone otherwise. Without an arbiter it does nothing.
pub proof fn law_what_the_clock_drives(
    s: RouterState,
    a: ArbiterState,
    pos: Option<(i32, i32)>,
    w: i32,
    h: i32,
    connected: bool,
    now: u64,
)
    ensures
        s.arbiter is None ==> s.ticked(pos, w, h, connected, now).state == s && s.ticked(
            pos,
            w,
            h,
            connected,
            now,
        ).commands.len() == 0,
        a.mode == Mode::Sink ==> s.clocked(a, pos, w, h, now) == (Outcome {
            state: RouterState { arbiter: Some(a.after_sink_tick(pos, w, h, now)), ..s },
            commands: Seq::empty(),
        }).then_run_all(a.sink_tick_actions(pos, w, h, now), now),
        a.mode != Mode::Sink ==> s.clocked(a, pos, w, h, now) == (Outcome {
            state: RouterState { arbiter: Some(a.after_tick(now)), ..s },
            commands: Seq::empty(),
        }).then_run_all(a.tick_actions(now), now),
{
}

} // verus!
