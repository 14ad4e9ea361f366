//! The link between the two machines.

use vstd::prelude::*;

use crate::net::tcp::IpAddr;
use crate::protocol::{file_payload, is_file_payload, Message, MsgKind, Payload};
use crate::text::{
    chars_of, decimal, decimal_value, law_numbers_are_written_in_decimal, lemma_decimal_value,
};

pub mod tcp;
pub mod udp;

verus! {

/// The port of the reliable channel.
pub const TCP_PORT: u16 = 5200;

/// The port of the channel for pointer frames.
pub const UDP_PORT: u16 = 5300;

/// How often a heartbeat is sent, in nanoseconds.
pub const HEARTBEAT_INTERVAL: u64 = 2_000_000_000;

/// How long the peer may be silent before it counts as gone, in nanoseconds.
pub const READ_TIMEOUT: u64 = 8_000_000_000;

/// How long to wait before connecting again, in nanoseconds.
pub const RECONNECT_INTERVAL: u64 = 2_000_000_000;

/// How long a piece of a file may wait in its queue, in nanoseconds.
pub const FILE_QUEUE_TIMEOUT: u64 = 3_000_000_000;

pub open spec fn is_digit(c: char) -> bool {
    '0' <= c && c <= '9'
}

/// A number without its plus sign.
pub open spec fn unsigned(s: Seq<char>) -> Seq<char> {
    if s.len() > 0 && s[0] == '+' { s.skip(1) } else { s }
}

pub open spec fn all_digits(s: Seq<char>) -> bool {
    forall|i: int| 0 <= i < s.len() ==> #[trigger] is_digit(s[i])
}

/// The port that a text names in decimal, with or without a plus sign.
pub open spec fn port_of(s: Seq<char>) -> Option<u16> {
    let digits = unsigned(s);
    if digits.len() > 0 && all_digits(digits) && decimal_value(digits) <= 0xffff {
        Some(decimal_value(digits) as u16)
    } else {
        None
    }
}

proof fn lemma_value_grows(s: Seq<char>, k: int)
    requires
        0 <= k <= s.len(),
        all_digits(s),
    ensures
        0 <= decimal_value(s.take(k)) <= decimal_value(s),
    decreases s.len() + (s.len() - k),
{
    if k == s.len() {
        assert(s.take(k) =~= s);
        if k > 0 {
            lemma_value_grows(s.drop_last(), k - 1);
            assert(s.drop_last().take(k - 1) =~= s.drop_last());
            assert(is_digit(s[k - 1]));
        }
    } else {
        lemma_value_grows(s.drop_last(), k);
        assert(s.drop_last().take(k) =~= s.take(k));
        assert(is_digit(s[s.len() - 1]));
    }
}

/// Reads a port.
pub fn parse_port(s: &str) -> (r: Option<u16>)
    ensures
        r == port_of(s@),
{
    let v = chars_of(s);
    let n: usize = v.len();
    let start: usize = if n > 0 && v[0] == '+' { 1 } else { 0 };
    let ghost digits = unsigned(s@);
    assert(digits =~= v@.skip(start as int));
    if start == n {
        return None;
    }
    let mut value: u32 = 0;
    let mut i: usize = start;
    while i < n
        invariant
            n == v@.len(),
            v@ == s@,
            start <= i <= n,
            start < n,
            start <= 1,
            digits == unsigned(s@),
            digits == v@.skip(start as int),
            all_digits(digits.take(i - start)),
            value == decimal_value(digits.take(i - start)),
            value <= 0xffff,
        decreases n - i,
    {
        let c = v[i];
        assert(digits[i - start] == c);
        if c < '0' || c > '9' {
            assert(!is_digit(digits[i - start]));
            return None;
        }
        value = value * 10 + (c as u32 - 48);
        i += 1;
        proof {
            assert(digits.take(i - start).drop_last() =~= digits.take(i - 1 - start));
            assert(digits.take(i - start).last() == c);
            assert(value == decimal_value(digits.take(i - start)));
            assert forall|j: int| 0 <= j < i - start implies #[trigger] is_digit(
                digits.take(i - start)[j],
            ) by {
                if j < i - 1 - start {
                    assert(is_digit(digits.take(i - 1 - start)[j]));
                }
            }
            if value > 0xffff && all_digits(digits) {
                lemma_value_grows(digits, i - start);
            }
        }
        if value > 0xffff {
            return None;
        }
    }
    assert(digits.take(n - start) =~= digits);
    Some(value as u16)
}

/// How to reach the peer.
#[derive(Debug, Clone)]
pub struct PeerConfig {
    pub ip: String,
    /// The ports of this machine.
    pub tcp_port: u16,
    pub udp_port: u16,
    /// The ports of the peer.
    pub peer_tcp_port: u16,
    pub peer_udp_port: u16,
}

/// Ports that were set from outside, as text.
#[derive(Debug, Clone)]
pub struct PortOverrides {
    pub tcp: Option<String>,
    pub udp: Option<String>,
    pub peer_tcp: Option<String>,
    pub peer_udp: Option<String>,
}

/// A port that was set, or a default where none was or where it cannot be read.
pub open spec fn port_or(set: Option<String>, default: u16) -> u16 {
    match set {
        Some(s) => match port_of(s@) {
            Some(p) => p,
            None => default,
        },
        None => default,
    }
}

fn pick_port(set: &Option<String>, default: u16) -> (p: u16)
    ensures
        p == port_or(*set, default),
{
    match set {
        Some(s) => match parse_port(s) {
            Some(p) => p,
            None => default,
        },
        None => default,
    }
}

/// The four ports: those of this machine and those of the peer, each for messages and for
/// pointer frames.
pub open spec fn ports_of(set: PortOverrides) -> (u16, u16, u16, u16) {
    let tcp = port_or(set.tcp, TCP_PORT);
    let udp = port_or(set.udp, UDP_PORT);
    (tcp, udp, port_or(set.peer_tcp, tcp), port_or(set.peer_udp, udp))
}

impl PeerConfig {
    /// The peer at `ip`. The peer's ports are those of this machine where they are
    /// not set.
    pub fn new(ip: String, set: &PortOverrides) -> (c: Self)
        ensures
            c.ip == ip,
            c.tcp_port == port_or(set.tcp, TCP_PORT),
            c.udp_port == port_or(set.udp, UDP_PORT),
            c.peer_tcp_port == port_or(set.peer_tcp, c.tcp_port),
            c.peer_udp_port == port_or(set.peer_udp, c.udp_port),
            (c.tcp_port, c.udp_port, c.peer_tcp_port, c.peer_udp_port) == ports_of(*set),
    {
        let tcp_port: u16 = pick_port(&set.tcp, TCP_PORT);
        let udp_port: u16 = pick_port(&set.udp, UDP_PORT);
        let peer_tcp_port: u16 = pick_port(&set.peer_tcp, tcp_port);
        let peer_udp_port: u16 = pick_port(&set.peer_udp, udp_port);
        PeerConfig { ip, tcp_port, udp_port, peer_tcp_port, peer_udp_port }
    }
}

/// The address by which the peer reaches this machine.
pub open spec fn address_of(local: Option<IpAddr>) -> IpAddr {
    match local {
        Some(IpAddr::V4(0)) => IpAddr::V4(0x7f00_0001),
        Some(IpAddr::V6(0)) => IpAddr::V4(0x7f00_0001),
        Some(a) => a,
        None => IpAddr::V4(0x7f00_0001),
    }
}

/// The address by which the peer reaches this machine: the local end of the way
/// there, or the machine itself where that is not known.
pub fn my_address(local: Option<IpAddr>) -> (ip: IpAddr)
    ensures
        ip == match local {
            Some(IpAddr::V4(0)) => IpAddr::V4(0x7f00_0001),
            Some(IpAddr::V6(0)) => IpAddr::V4(0x7f00_0001),
            Some(a) => a,
            None => IpAddr::V4(0x7f00_0001),
        },
        ip == address_of(local),
{
    match local {
        Some(IpAddr::V4(0)) => IpAddr::V4(0x7f00_0001),
        Some(IpAddr::V6(0)) => IpAddr::V4(0x7f00_0001),
        Some(a) => a,
        None => IpAddr::V4(0x7f00_0001),
    }
}

/// What is known of the link.
#[derive(Debug, Clone, Copy, PartialEq, Eq, Structural)]
pub struct NetStatus {
    pub connected: bool,
    pub sent: u64,
    pub received: u64,
}

/// What became of a piece of a file on its way to the queue.
#[derive(Debug, Clone, Copy, PartialEq, Eq, Structural)]
pub enum QueueOutcome {
    NotConnected,
    TimedOut,
    Closed,
    Queued,
}

/// Why a piece of a file was not sent.
pub open spec fn refusal_of(outcome: QueueOutcome) -> Option<Seq<char>> {
    match outcome {
        QueueOutcome::NotConnected => Some("网络连接已断开"@),
        QueueOutcome::TimedOut => Some("文件发送队列等待超时"@),
        QueueOutcome::Closed => Some("网络连接已关闭"@),
        QueueOutcome::Queued => None,
    }
}

/// What the sender of a file is told.
pub fn send_file_result(outcome: QueueOutcome) -> (r: Result<(), String>)
    ensures
        match refusal_of(outcome) {
            Some(text) => r matches Err(e) && e@ == text,
            None => r is Ok,
        },
        match outcome {
            QueueOutcome::NotConnected => r matches Err(e) && e@ == "网络连接已断开"@,
            QueueOutcome::TimedOut => r matches Err(e) && e@ == "文件发送队列等待超时"@,
            QueueOutcome::Closed => r matches Err(e) && e@ == "网络连接已关闭"@,
            QueueOutcome::Queued => r is Ok,
        },
{
    match outcome {
        QueueOutcome::NotConnected => Err("网络连接已断开".to_owned()),
        QueueOutcome::TimedOut => Err("文件发送队列等待超时".to_owned()),
        QueueOutcome::Closed => Err("网络连接已关闭".to_owned()),
        QueueOutcome::Queued => Ok(()),
    }
}

/// Where a message of the peer goes.
#[derive(Debug, Clone, Copy, PartialEq, Eq, Structural)]
pub enum Inbox {
    /// Keyboard, mouse, clipboard and control.
    Events,
    /// File transfers and drags.
    Files,
}

/// What happened on the reading side of a connection.
#[derive(Debug)]
pub enum ReadEvent {
    /// The reading side begins.
    Begun,
    /// A message was read.
    Frame(Message),
    /// The message was taken over by its inbox.
    Delivered,
    /// Nobody takes messages out of the inbox any more.
    InboxClosed,
    /// What was read is no message, or nothing can be read any more.
    Failed,
    /// Nothing was read for `READ_TIMEOUT`.
    TimedOut,
}

/// What the reading side of a connection does next.
#[derive(Debug)]
pub enum ReadStep {
    /// Read a message, within `READ_TIMEOUT`.
    Read,
    /// Put a message into an inbox.
    Deliver { inbox: Inbox, message: Message },
    /// The reading side has ended.
    End,
}

/// The inbox for a payload.
pub open spec fn inbox_of(p: Payload) -> Inbox {
    if file_payload(p) { Inbox::Files } else { Inbox::Events }
}

/// The reading side of a connection.
#[derive(Debug, Clone, Copy, PartialEq, Eq, Structural)]
pub struct Reader {
    /// How many messages were read; it starts over when it is full.
    pub received: u64,
    pub over: bool,
}

impl Reader {
    /// Nothing was read yet.
    pub fn new() -> (r: Self)
        ensures
            r == (Reader { received: 0, over: false }),
    {
        Reader { received: 0, over: false }
    }

    /// After an event: a message counts once, and the reading side ends when nothing
    /// more comes or nobody wants it.
    pub open spec fn after_read(self, event: ReadEvent) -> Self {
        if self.over {
            self
        } else {
            match event {
                ReadEvent::Begun | ReadEvent::Delivered => self,
                ReadEvent::Frame(_) => Reader {
                    received: self.received.wrapping_add(1),
                    ..self
                },
                ReadEvent::InboxClosed | ReadEvent::Failed | ReadEvent::TimedOut => Reader {
                    over: true,
                    ..self
                },
            }
        }
    }

    /// What follows an event: a message goes to the inbox of its payload.
    pub open spec fn read_step(self, event: ReadEvent) -> ReadStep {
        if self.over {
            ReadStep::End
        } else {
            match event {
                ReadEvent::Begun | ReadEvent::Delivered => ReadStep::Read,
                ReadEvent::Frame(m) => ReadStep::Deliver {
                    inbox: inbox_of(m.payload),
                    message: m,
                },
                ReadEvent::InboxClosed | ReadEvent::Failed | ReadEvent::TimedOut => ReadStep::End,
            }
        }
    }

    /// Decides what the reading side does next.
    pub fn on_read(&mut self, event: ReadEvent) -> (step: ReadStep)
        ensures
            *final(self) == old(self).after_read(event),
            step == old(self).read_step(event),
    {
        if self.over {
            return ReadStep::End;
        }
        match event {
            ReadEvent::Begun | ReadEvent::Delivered => ReadStep::Read,
            ReadEvent::Frame(message) => {
                self.received = self.received.wrapping_add(1);
                let inbox = if is_file_payload(&message.payload) {
                    Inbox::Files
                } else {
                    Inbox::Events
                };
                ReadStep::Deliver { inbox, message }
            },
            ReadEvent::InboxClosed | ReadEvent::Failed | ReadEvent::TimedOut => {
                self.over = true;
                ReadStep::End
            },
        }
    }
}

/// What happened on the writing side of a connection.
#[derive(Debug)]
pub enum ServeEvent {
    /// The connection was made.
    Begun,
    /// The reading side has ended.
    ReaderEnded,
    /// A queue handed out a message.
    Queued(Message),
    /// Nobody can put messages into a queue any more.
    QueueClosed,
    /// Nothing else happened for `HEARTBEAT_INTERVAL`.
    Quiet,
    /// The last message was written.
    Written,
    /// The last message could not be written.
    WriteFailed,
}

/// What the writing side of a connection does next.
#[derive(Debug)]
pub enum ServeStep {
    /// Wait for the next event. The end of the reading side goes first, then the
    /// queues of control messages, of events and of files, in this order.
    Wait,
    /// Write a message.
    Write(Message),
    /// The connection has ended.
    End,
}

/// What the writing side of a connection does next.
pub enum ServeStepView {
    Wait,
    Write { kind: MsgKind, from: Seq<char>, payload: Payload },
    End,
}

impl View for ServeStep {
    type V = ServeStepView;

    open spec fn view(&self) -> ServeStepView {
        match self {
            ServeStep::Wait => ServeStepView::Wait,
            ServeStep::Write(m) => ServeStepView::Write {
                kind: m.kind,
                from: m.from@,
                payload: m.payload,
            },
            ServeStep::End => ServeStepView::End,
        }
    }
}

/// What waits to be sent.
#[derive(Debug, Clone, Copy, PartialEq, Eq, Structural)]
pub enum Queue {
    Control,
    Events,
    Files,
}

/// What happened to the connection.
#[derive(Debug, Clone, Copy, PartialEq, Eq, Structural)]
pub enum LinkEvent {
    /// The link was started, or the wait before the next attempt is over.
    Due,
    Established,
    Refused,
    /// The connection that stood has ended.
    Ended,
    /// A message was taken out of the queue and thrown away.
    Dropped,
    /// The queue was found empty.
    Emptied,
}

/// What to do about the connection.
#[derive(Debug, Clone, Copy, PartialEq, Eq, Structural)]
pub enum LinkStep {
    Stop,
    /// Connect, or wait for the peer to connect.
    Establish,
    /// Exchange messages until the connection ends.
    Serve,
    /// Take a message out of this queue and throw it away, if there is one: what was
    /// meant for a connection that has ended must not reach the next one.
    Discard(Queue),
    /// Wait for `RECONNECT_INTERVAL`.
    Pause,
}

/// The connection to the peer: it is made again whenever it ends.
#[derive(Debug, Clone, Copy, PartialEq, Eq, Structural)]
pub struct Connector {
    pub connected: bool,
    /// The number of the last heartbeat of this connection.
    pub heartbeat: u64,
    /// Something happened that ends the connection.
    pub broken: bool,
    /// The queue that is being emptied after a connection ended; those before it are
    /// done.
    pub discarding: Option<Queue>,
}

/// The queue that is emptied after `q`.
pub open spec fn queue_after(q: Queue) -> Option<Queue> {
    match q {
        Queue::Control => Some(Queue::Events),
        Queue::Events => Some(Queue::Files),
        Queue::Files => None,
    }
}

impl Connector {
    pub open spec fn initial() -> Self {
        Connector { connected: false, heartbeat: 0, broken: false, discarding: None }
    }

    /// Not connected yet.
    pub fn new() -> (c: Self)
        ensures
            c == Self::initial(),
    {
        Connector { connected: false, heartbeat: 0, broken: false, discarding: None }
    }

    /// What follows an event; `shutdown` says that the link is to end. Once a
    /// connection has ended, nothing else happens until every queue was found empty.
    pub open spec fn next_step(self, event: LinkEvent, shutdown: bool) -> LinkStep {
        let rest = if shutdown { LinkStep::Stop } else { LinkStep::Pause };
        match self.discarding {
            Some(q) => if event is Emptied {
                match queue_after(q) {
                    Some(next) => LinkStep::Discard(next),
                    None => rest,
                }
            } else {
                LinkStep::Discard(q)
            },
            None => match event {
                LinkEvent::Due => if shutdown { LinkStep::Stop } else { LinkStep::Establish },
                LinkEvent::Established => LinkStep::Serve,
                LinkEvent::Ended => LinkStep::Discard(Queue::Control),
                LinkEvent::Refused | LinkEvent::Dropped | LinkEvent::Emptied => rest,
            },
        }
    }

    pub open spec fn after(self, event: LinkEvent) -> Self {
        match self.discarding {
            Some(q) => if event is Emptied {
                Connector { discarding: queue_after(q), ..self }
            } else {
                self
            },
            None => match event {
                LinkEvent::Established => Connector {
                    connected: true,
                    heartbeat: 0,
                    broken: false,
                    discarding: None,
                },
                LinkEvent::Ended => Connector {
                    connected: false,
                    discarding: Some(Queue::Control),
                    ..self
                },
                _ => self,
            },
        }
    }

    /// Decides what follows an event.
    pub fn step(&mut self, event: LinkEvent, shutdown: bool) -> (step: LinkStep)
        ensures
            *final(self) == old(self).after(event),
            step == old(self).next_step(event, shutdown),
    {
        let rest: LinkStep = if shutdown { LinkStep::Stop } else { LinkStep::Pause };
        if let Some(q) = self.discarding {
            if event != LinkEvent::Emptied {
                return LinkStep::Discard(q);
            }
            let next: Option<Queue> = match q {
                Queue::Control => Some(Queue::Events),
                Queue::Events => Some(Queue::Files),
                Queue::Files => None,
            };
            self.discarding = next;
            return match next {
                Some(n) => LinkStep::Discard(n),
                None => rest,
            };
        }
        match event {
            LinkEvent::Due => {
                if shutdown {
                    LinkStep::Stop
                } else {
                    LinkStep::Establish
                }
            },
            LinkEvent::Established => {
                self.connected = true;
                self.heartbeat = 0;
                self.broken = false;
                LinkStep::Serve
            },
            LinkEvent::Ended => {
                self.connected = false;
                self.discarding = Some(Queue::Control);
                LinkStep::Discard(Queue::Control)
            },
            LinkEvent::Refused | LinkEvent::Dropped | LinkEvent::Emptied => rest,
        }
    }

    /// Whether an event ends the connection: nothing can be read or written any more,
    /// or nobody is left who would read or write.
    pub open spec fn ends(event: ServeEvent) -> bool {
        event is ReaderEnded || event is QueueClosed || event is WriteFailed
    }

    pub open spec fn after_serve(self, event: ServeEvent) -> Self {
        if self.broken {
            self
        } else if Self::ends(event) {
            Connector { broken: true, ..self }
        } else if event is Quiet {
            Connector { heartbeat: (self.heartbeat + 1) as u64, ..self }
        } else {
            self
        }
    }

    /// What the writing side of the machine `name` does about an event: what a queue
    /// hands out is written as it is, and a quiet time is filled with a heartbeat.
    pub open spec fn serve_step(self, event: ServeEvent, name: Seq<char>) -> ServeStepView {
        if self.broken || Self::ends(event) {
            ServeStepView::End
        } else {
            match event {
                ServeEvent::Queued(m) => ServeStepView::Write {
                    kind: m.kind,
                    from: m.from@,
                    payload: m.payload,
                },
                ServeEvent::Quiet => ServeStepView::Write {
                    kind: MsgKind::Ctrl,
                    from: name,
                    payload: Payload::Heartbeat { seq: (self.heartbeat + 1) as u64 },
                },
                _ => ServeStepView::Wait,
            }
        }
    }

    /// Decides what the writing side of the machine `name` does next.
    pub fn on_serve(&mut self, event: ServeEvent, name: &str) -> (step: ServeStep)
        requires
            event is Quiet ==> old(self).heartbeat < u64::MAX,
        ensures
            *final(self) == old(self).after_serve(event),
            step@ == old(self).serve_step(event, name@),
    {
        if self.broken {
            return ServeStep::End;
        }
        match event {
            ServeEvent::Begun | ServeEvent::Written => ServeStep::Wait,
            ServeEvent::Queued(m) => ServeStep::Write(m),
            ServeEvent::Quiet => ServeStep::Write(self.next_heartbeat(name)),
            ServeEvent::ReaderEnded | ServeEvent::QueueClosed | ServeEvent::WriteFailed => {
                self.broken = true;
                ServeStep::End
            },
        }
    }

    /// The next heartbeat of the machine `name`. They are numbered from one within a
    /// connection.
    pub fn next_heartbeat(&mut self, name: &str) -> (m: Message)
        requires
            old(self).heartbeat < u64::MAX,
        ensures
            *final(self) == (Connector {
                heartbeat: (old(self).heartbeat + 1) as u64,
                ..*old(self)
            }),
            m.kind == MsgKind::Ctrl,
            m.from@ == name@,
            m.payload == (Payload::Heartbeat { seq: final(self).heartbeat }),
    {
        self.heartbeat += 1;
        Message::ctrl(name, Payload::Heartbeat { seq: self.heartbeat })
    }
}

/// As long as the link is not to end, every way through it leads to the next attempt
/// to connect: after a connection is refused, or has ended and left nothing behind,
/// there is a pause and then an attempt.
pub proof fn law_link_is_made_again(c: Connector, event: LinkEvent)
    ensures
        c.next_step(event, false) != LinkStep::Stop,
        c.discarding is None && event is Refused ==> c.next_step(event, false) == LinkStep::Pause
            && c.after(event).next_step(LinkEvent::Due, false) == LinkStep::Establish,
        c.discarding == Some(Queue::Files) && event is Emptied ==> c.next_step(event, false)
            == LinkStep::Pause && c.after(event).next_step(LinkEvent::Due, false)
            == LinkStep::Establish,
{
}

/// A connection ends for every reason that there is, and having ended it stays so:
/// nothing more is written.
pub proof fn law_ended_connection_stays_ended(
    c: Connector,
    event: ServeEvent,
    later: ServeEvent,
    name: Seq<char>,
)
    requires
        c.broken || Connector::ends(event),
    ensures
        c.serve_step(event, name) == ServeStepView::End,
        c.after_serve(event).broken,
        c.after_serve(event).serve_step(later, name) == ServeStepView::End,
{
}

/// Every message that is read counts once and is delivered once, to the inbox of its
/// payload, as long as the reading side lives.
pub proof fn law_messages_are_delivered_once(r: Reader, m: Message)
    requires
        !r.over,
        r.received < u64::MAX,
    ensures
        r.after_read(ReadEvent::Frame(m)).received == r.received + 1,
        r.read_step(ReadEvent::Frame(m)) == (ReadStep::Deliver {
            inbox: if file_payload(m.payload) {
                Inbox::Files
            } else {
                Inbox::Events
            },
            message: m,
        }),
        r.after_read(ReadEvent::Frame(m)).read_step(ReadEvent::Delivered) == ReadStep::Read,
        r.after_read(ReadEvent::Frame(m)).after_read(ReadEvent::Delivered).received == r.received
            + 1,
{
}

impl Connector {
    /// After several events.
    pub open spec fn after_all(self, events: Seq<LinkEvent>) -> Self
        decreases events.len(),
    {
        if events.len() == 0 {
            self
        } else {
            self.after_all(events.drop_last()).after(events.last())
        }
    }

    /// Whether the `i`-th of several events is that the queue `q` was found empty.
    pub open spec fn found_empty(self, events: Seq<LinkEvent>, i: int, q: Queue) -> bool {
        &&& 0 <= i < events.len()
        &&& events[i] is Emptied
        &&& self.after_all(events.take(i)).discarding == Some(q)
    }
}

/// How far the emptying has come after the first `n` events.
proof fn lemma_emptied_in_turn(c: Connector, events: Seq<LinkEvent>, n: int) -> (at: (int, int, int))
    requires
        c.discarding == Some(Queue::Control),
        0 <= n <= events.len(),
    ensures
        ({
            let d = c.after_all(events.take(n)).discarding;
            &&& d != Some(Queue::Control) ==> at.0 < n && c.found_empty(
                events,
                at.0,
                Queue::Control,
            )
            &&& d is None || d == Some(Queue::Files) ==> at.0 < at.1 < n && c.found_empty(
                events,
                at.1,
                Queue::Events,
            )
            &&& d is None ==> at.1 < at.2 < n && c.found_empty(events, at.2, Queue::Files)
        }),
    decreases n,
{
    if n == 0 {
        (0, 0, 0)
    } else {
        let before = lemma_emptied_in_turn(c, events, n - 1);
        assert(events.take(n).drop_last() =~= events.take(n - 1));
        assert(events.take(n).last() == events[n - 1]);
        let d = c.after_all(events.take(n - 1)).discarding;
        if events[n - 1] is Emptied {
            match d {
                Some(Queue::Control) => (n - 1, before.1, before.2),
                Some(Queue::Events) => (before.0, n - 1, before.2),
                Some(Queue::Files) => (before.0, before.1, n - 1),
                None => before,
            }
        } else {
            before
        }
    }
}

/// Whatever happens after a connection has ended, nothing is done but throwing away
/// what waits to be sent, until the three queues were found empty one after the other.
/// In particular no new connection is made before, so that nothing of the old one is
/// sent on it.
pub proof fn law_nothing_old_is_sent(
    c: Connector,
    events: Seq<LinkEvent>,
    shutdown: bool,
)
    requires
        c.discarding is None,
        events.len() > 0,
    ensures
        c.next_step(LinkEvent::Ended, shutdown) == LinkStep::Discard(Queue::Control),
        !c.after(LinkEvent::Ended).connected,
        ({
            let ended = c.after(LinkEvent::Ended);
            let step = ended.after_all(events.drop_last()).next_step(events.last(), shutdown);
            ||| step is Discard
            ||| exists|i: int, j: int, k: int|
                i < j < k && #[trigger] ended.found_empty(events, i, Queue::Control)
                    && #[trigger] ended.found_empty(events, j, Queue::Events)
                    && #[trigger] ended.found_empty(events, k, Queue::Files)
        }),
{
    let ended = c.after(LinkEvent::Ended);
    let n = events.len() as int;
    let at = lemma_emptied_in_turn(ended, events, n);
    assert(events.take(n) =~= events);
    let step = ended.after_all(events.drop_last()).next_step(events.last(), shutdown);
    if !(step is Discard) {
        assert(ended.after_all(events).discarding is None);
        assert(ended.found_empty(events, at.0, Queue::Control));
        assert(ended.found_empty(events, at.1, Queue::Events));
        assert(ended.found_empty(events, at.2, Queue::Files));
    }
}

/// A port is read as it is written in decimal, with or without a plus sign, up to 65535.
pub proof fn law_ports_are_read_in_decimal(n: nat)
    ensures
        n <= 65535 ==> port_of(decimal(n)) == Some(n as u16) && port_of(seq!['+'] + decimal(n))
            == Some(n as u16),
        n > 65535 ==> port_of(decimal(n)) is None && port_of(seq!['+'] + decimal(n)) is None,
{
    lemma_decimal_value(n);
    law_numbers_are_written_in_decimal(n);
    let d = decimal(n);
    assert forall|i: int| 0 <= i < d.len() implies #[trigger] is_digit(d[i]) by {
        assert('0' <= d[i] <= '9');
    }
    assert(is_digit(d[0]));
    assert((seq!['+'] + d).skip(1) =~= d);
}

/// A text with anything but digits behind its sign is no port, nor is an empty one.
pub proof fn law_what_is_no_port(s: Seq<char>, i: int)
    ensures
        s.len() == 0 ==> port_of(s) is None,
        s == seq!['+'] ==> port_of(s) is None,
        0 < i < s.len() && (s[i] < '0' || s[i] > '9') ==> port_of(s) is None,
        s.len() > 0 && s[0] != '+' && (s[0] < '0' || s[0] > '9') ==> port_of(s) is None,
{
    let digits = unsigned(s);
    if 0 < i < s.len() && (s[i] < '0' || s[i] > '9') {
        let k = if s[0] == '+' {
            i - 1
        } else {
            i
        };
        assert(digits[k] == s[i]);
        assert(!is_digit(digits[k]));
    }
    if s.len() > 0 && s[0] != '+' && (s[0] < '0' || s[0] > '9') {
        assert(!is_digit(digits[0]));
    }
}

/// Messages go by port 5200 and pointer frames by port 5300 where nothing else is set.
/// What cannot be read counts as not set. The peer is expected at this machine's own
/// ports unless its ports are set.
pub proof fn law_ports_and_their_defaults(set: PortOverrides)
    ensures
        ({
            let (tcp, udp, peer_tcp, peer_udp) = ports_of(set);
            &&& match set.tcp {
                Some(s) => tcp == (if port_of(s@) is Some {
                    port_of(s@)->0
                } else {
                    5200
                }),
                None => tcp == 5200,
            }
            &&& match set.udp {
                Some(s) => udp == (if port_of(s@) is Some {
                    port_of(s@)->0
                } else {
                    5300
                }),
                None => udp == 5300,
            }
            &&& match set.peer_tcp {
                Some(s) => peer_tcp == (if port_of(s@) is Some {
                    port_of(s@)->0
                } else {
                    tcp
                }),
                None => peer_tcp == tcp,
            }
            &&& match set.peer_udp {
                Some(s) => peer_udp == (if port_of(s@) is Some {
                    port_of(s@)->0
                } else {
                    udp
                }),
                None => peer_udp == udp,
            }
        }),
{
}

/// An address that is known is used as it is. One that says nothing, or none at all,
/// stands for the machine itself, 127.0.0.1.
pub proof fn law_own_address(local: IpAddr)
    ensures
        local != IpAddr::V4(0) && local != IpAddr::V6(0) ==> address_of(Some(local)) == local,
        address_of(Some(IpAddr::V4(0))) == IpAddr::V4(0x7F00_0001),
        address_of(Some(IpAddr::V6(0))) == IpAddr::V4(0x7F00_0001),
        address_of(None) == IpAddr::V4(0x7F00_0001),
{
}

/// Only what was queued was sent; whatever else became of it has its own reason.
pub proof fn law_only_what_is_queued_is_sent(outcome: QueueOutcome)
    ensures
        refusal_of(outcome) is None <==> outcome == QueueOutcome::Queued,
        refusal_of(QueueOutcome::NotConnected) == Some("网络连接已断开"@),
        refusal_of(QueueOutcome::TimedOut) == Some("文件发送队列等待超时"@),
        refusal_of(QueueOutcome::Closed) == Some("网络连接已关闭"@),
{
}

/// The times of the link in milliseconds. The peer counts as gone only after it has kept
/// silent for several heartbeats.
pub proof fn law_times_of_the_link()
    ensures
        HEARTBEAT_INTERVAL == 2000 * 1_000_000,
        READ_TIMEOUT == 4 * HEARTBEAT_INTERVAL,
        RECONNECT_INTERVAL == 2000 * 1_000_000,
        FILE_QUEUE_TIMEOUT == 3000 * 1_000_000,
{
}

/// A message that is read goes as it is to one of two inboxes: what belongs to a file
/// transfer or a drag to that of files, and everything else to that of events. The
/// reading side goes on until nothing more comes or nobody wants it, and then it rests.
pub proof fn law_what_the_reading_side_does(r: Reader, m: Message)
    requires
        !r.over,
    ensures
        r.read_step(ReadEvent::Begun) is Read && r.after_read(ReadEvent::Begun) == r,
        r.read_step(ReadEvent::Delivered) is Read && r.after_read(ReadEvent::Delivered) == r,
        !r.after_read(ReadEvent::Frame(m)).over,
        r.read_step(ReadEvent::Frame(m)) matches ReadStep::Deliver { inbox, message } && message
            == m && (inbox == Inbox::Files <==> file_payload(m.payload)),
        r.read_step(ReadEvent::Failed) is End && r.after_read(ReadEvent::Failed).over,
        r.read_step(ReadEvent::TimedOut) is End && r.after_read(ReadEvent::TimedOut).over,
        r.read_step(ReadEvent::InboxClosed) is End && r.after_read(ReadEvent::InboxClosed).over,
        r.after_read(ReadEvent::Failed).received == r.received,
        forall|e: ReadEvent| #[trigger]
            r.after_read(ReadEvent::Failed).read_step(e) is End && r.after_read(
                ReadEvent::Failed,
            ).after_read(e) == r.after_read(ReadEvent::Failed),
{
}

/// A connection that stands writes what its queues hand out, as it is. A quiet time is
/// filled with a heartbeat of this machine, one higher than the last. It ends when the
/// reading side ends, a queue is closed or writing fails, and for no other reason.
pub proof fn law_what_the_writing_side_does(c: Connector, m: Message, name: Seq<char>)
    requires
        !c.broken,
    ensures
        c.serve_step(ServeEvent::Begun, name) is Wait && c.after_serve(ServeEvent::Begun) == c,
        c.serve_step(ServeEvent::Written, name) is Wait && c.after_serve(ServeEvent::Written) == c,
        c.serve_step(ServeEvent::Queued(m), name) == (ServeStepView::Write {
            kind: m.kind,
            from: m.from@,
            payload: m.payload,
        }),
        c.after_serve(ServeEvent::Queued(m)) == c,
        c.heartbeat < u64::MAX ==> {
            &&& c.serve_step(ServeEvent::Quiet, name) matches ServeStepView::Write {
                kind,
                from,
                payload,
            } && kind == MsgKind::Ctrl && from == name && (payload matches Payload::Heartbeat { seq }
                && seq == c.heartbeat + 1)
            &&& c.after_serve(ServeEvent::Quiet).heartbeat == c.heartbeat + 1
            &&& !c.after_serve(ServeEvent::Quiet).broken
            &&& c.after_serve(ServeEvent::Quiet).connected == c.connected
        },
        c.serve_step(ServeEvent::ReaderEnded, name) is End,
        c.serve_step(ServeEvent::QueueClosed, name) is End,
        c.serve_step(ServeEvent::WriteFailed, name) is End,
        c.after_serve(ServeEvent::ReaderEnded).broken,
        c.after_serve(ServeEvent::QueueClosed).broken,
        c.after_serve(ServeEvent::WriteFailed).broken,
{
}

/// The life of the link: it connects when it is due unless it is to end, serves a new
/// connection with its heartbeats numbered anew, and pauses after a refusal.
pub proof fn law_life_of_the_link(c: Connector, shutdown: bool)
    requires
        c.discarding is None,
    ensures
        !Connector::initial().connected && Connector::initial().discarding is None,
        c.next_step(LinkEvent::Due, shutdown) == if shutdown {
            LinkStep::Stop
        } else {
            LinkStep::Establish
        },
        c.next_step(LinkEvent::Established, shutdown) == LinkStep::Serve,
        c.after(LinkEvent::Established).connected,
        c.after(LinkEvent::Established).heartbeat == 0,
        !c.after(LinkEvent::Established).broken,
        c.next_step(LinkEvent::Refused, shutdown) == if shutdown {
            LinkStep::Stop
        } else {
            LinkStep::Pause
        },
        c.after(LinkEvent::Refused) == c,
        c.after(LinkEvent::Due) == c,
        !c.after(LinkEvent::Ended).connected,
{
}

/// A queue is emptied until nothing is left in it; then comes the next one, and behind
/// the last the link goes on, or ends where it is to end.
pub proof fn law_queues_are_emptied_in_turn(c: Connector, q: Queue, shutdown: bool)
    requires
        c.discarding == Some(q),
    ensures
        c.next_step(LinkEvent::Dropped, shutdown) == LinkStep::Discard(q),
        c.after(LinkEvent::Dropped) == c,
        q == Queue::Control ==> c.next_step(LinkEvent::Emptied, shutdown) == LinkStep::Discard(
            Queue::Events,
        ),
        q == Queue::Events ==> c.next_step(LinkEvent::Emptied, shutdown) == LinkStep::Discard(
            Queue::Files,
        ),
        q == Queue::Files ==> c.next_step(LinkEvent::Emptied, shutdown) == if shutdown {
            LinkStep::Stop
        } else {
            LinkStep::Pause
        },
        q == Queue::Files ==> c.after(LinkEvent::Emptied).discarding is None,
{
}

} // verus!
