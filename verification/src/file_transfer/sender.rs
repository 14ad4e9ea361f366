//! The sending side of a transfer.
//!
//! `FileSender` keeps the books: what was asked for, what can be tried again and
//! what was cancelled. A `BatchRun` takes one batch from its announcement to the
//! last confirmation: it says what to do next, the application does it and tells
//! what came of it.

use vstd::prelude::*;

use crate::file_transfer::digest::{digest_text, FileDigest, SHA256_LIMIT};
use crate::file_transfer::plan::{
    build_roots, file_views, root_views, roots_of, FileView, SendFile, SendPlan, TopEntry,
};
use crate::file_transfer::receiver::{
    after_pieces, capped_u32, capped_u64, chunk_error, join_names, law_a_file_arrives_whole,
    lemma_part_is_not_longer, title_of, ReceiverState,
};
use crate::file_transfer::update::{Direction, Status, TransferUpdate, UpdateView};
use crate::ids::{fresh_id, is_id};
use crate::protocol::{Payload, TransferRoot};
use crate::table::Table;
use crate::text::{opt_text, same_text, texts};

verus! {

/// How much of a file is read and sent at a time at most: 256 KiB.
pub const CHUNK_SIZE: usize = 0x4_0000;

/// How long a confirmation is waited for: 120 s.
pub const RESULT_TIMEOUT: u64 = 120_000_000_000;

/// How often the progress of a batch is reported at most: every 100 ms.
pub const REPORT_INTERVAL: u64 = 100_000_000;

/// What a batch is waiting for.
#[derive(Debug, Clone, Copy, PartialEq, Eq, Structural)]
pub enum Phase {
    AnnounceSent,
    AnnounceWait,
    DirectorySent,
    StartSent,
    StartWait,
    Opening,
    Reading,
    ChunkSent,
    EndSent,
    EndWait,
    BatchEndSent,
    BatchEndWait,
    Over,
}

/// What came of the last step.
pub enum SendEvent {
    /// The payload is on its way.
    Sent,
    /// The peer confirmed.
    Confirmed,
    /// The file is open.
    Opened,
    /// The next piece of the file, of `CHUNK_SIZE` bytes at most; empty at its end.
    Data(Vec<u8>),
    /// Something went wrong.
    Failed(String),
}

/// What to do next.
#[allow(inconsistent_fields)]
pub enum SendStep {
    /// Send `payload`. Where `wait` names something, its confirmation is waited
    /// for later.
    Transmit { payload: Payload, wait: Option<String> },
    /// Wait for the confirmation.
    Await { waiter: String },
    /// Open a file; its confirmation is waited for later.
    Open { handle: u64, wait: String },
    /// Read the next piece of the open file: up to `limit` bytes.
    Read { limit: usize },
    /// All is done.
    Finished,
    /// The batch failed.
    Failed(String),
}

/// A payload of the sending side.
pub enum OutgoingView {
    BatchStart {
        id: Seq<char>,
        roots: Seq<TransferRoot>,
        total_files: u32,
        total_bytes: u64,
        drop_at_cursor: bool,
        drag_id: Option<Seq<char>>,
        clipboard_id: Option<Seq<char>>,
    },
    Directory { batch: Seq<char>, path: Seq<char> },
    FileStart { id: Seq<char>, batch: Seq<char>, path: Seq<char>, size: u64 },
    Chunk { id: Seq<char>, seq: u32, data: Seq<u8> },
    FileEnd { id: Seq<char>, sha256: Seq<char> },
    BatchEnd { id: Seq<char> },
}

/// Whether a payload is the given one.
pub open spec fn is_outgoing(p: Payload, v: OutgoingView) -> bool {
    match v {
        OutgoingView::BatchStart {
            id,
            roots,
            total_files,
            total_bytes,
            drop_at_cursor,
            drag_id,
            clipboard_id,
        } => p matches Payload::FileBatchStart {
            id: i,
            roots: r,
            total_files: f,
            total_bytes: b,
            drop_at_cursor: d,
            drag_id: g,
            clipboard_id: c,
        } && i@ == id && r@ == roots && f == total_files && b == total_bytes && d == drop_at_cursor
            && opt_text(g) == drag_id && opt_text(c) == clipboard_id,
        OutgoingView::Directory { batch, path } => p matches Payload::FileDirectory {
            batch_id: b,
            path: q,
        } && b@ == batch && q@ == path,
        OutgoingView::FileStart { id, batch, path, size } => p matches Payload::FileStart {
            id: i,
            batch_id: b,
            path: q,
            size: n,
        } && i@ == id && b@ == batch && q@ == path && n == size,
        OutgoingView::Chunk { id, seq, data } => p matches Payload::FileChunk {
            id: i,
            seq: n,
            data: d,
        } && i@ == id && n == seq && d@ == data,
        OutgoingView::FileEnd { id, sha256 } => p matches Payload::FileEnd { id: i, sha256: h }
            && i@ == id && h@ == sha256,
        OutgoingView::BatchEnd { id } => p matches Payload::FileBatchEnd { id: i } && i@ == id,
    }
}

/// What to do next.
#[allow(inconsistent_fields)]
pub enum StepView {
    Transmit { payload: OutgoingView, wait: Option<Seq<char>> },
    Await { waiter: Seq<char> },
    Open { handle: u64, wait: Seq<char> },
    Read { limit: usize },
    Finished,
    Failed(Seq<char>),
}

impl SendStep {
    /// Whether this is what `v` describes.
    pub open spec fn shows(self, v: StepView) -> bool {
        match (self, v) {
            (
                SendStep::Transmit { payload, wait },
                StepView::Transmit { payload: p, wait: w },
            ) => is_outgoing(payload, p) && opt_text(wait) == w,
            (SendStep::Await { waiter }, StepView::Await { waiter: w }) => waiter@ == w,
            (SendStep::Open { handle, wait }, StepView::Open { handle: h, wait: w }) => handle == h
                && wait@ == w,
            (SendStep::Read { limit }, StepView::Read { limit: n }) => limit == n,
            (SendStep::Finished, StepView::Finished) => true,
            (SendStep::Failed(e), StepView::Failed(t)) => e@ == t,
            _ => false,
        }
    }
}

/// How far a batch has come.
pub struct RunState {
    pub id: Seq<char>,
    pub title: Seq<char>,
    pub directories: Seq<Seq<char>>,
    pub files: Seq<FileView>,
    pub total_files: u32,
    pub total_bytes: u64,
    pub phase: Phase,
    /// How many folders were announced.
    pub directories_sent: nat,
    /// How many files were begun.
    pub files_begun: nat,
    /// The transfer of the current file.
    pub file_id: Seq<char>,
    /// What was read of the current file.
    pub content: Seq<u8>,
    /// The number of the next piece of the current file.
    pub seq: u32,
    /// The size of the piece that is being sent.
    pub in_flight: u64,
    pub transferred: u64,
    pub files_done: u32,
    pub last_emit: Option<u64>,
}

/// One batch on its way.
pub struct BatchRun {
    id: String,
    title: String,
    directories: Vec<String>,
    files: Vec<SendFile>,
    total_files: u32,
    total_bytes: u64,
    phase: Phase,
    directories_sent: usize,
    files_begun: usize,
    file_id: String,
    digest: FileDigest,
    read_bytes: u64,
    seq: u32,
    in_flight: u64,
    transferred: u64,
    files_done: u32,
    last_emit: Option<u64>,
}

impl View for BatchRun {
    type V = RunState;

    closed spec fn view(&self) -> RunState {
        RunState {
            id: self.id@,
            title: self.title@,
            directories: texts(self.directories@),
            files: file_views(self.files@),
            total_files: self.total_files,
            total_bytes: self.total_bytes,
            phase: self.phase,
            directories_sent: self.directories_sent as nat,
            files_begun: self.files_begun as nat,
            file_id: self.file_id@,
            content: self.digest@,
            seq: self.seq,
            in_flight: self.in_flight,
            transferred: self.transferred,
            files_done: self.files_done,
            last_emit: self.last_emit,
        }
    }
}

/// Why a file that is too long to have a digest cannot be sent.
pub open spec fn too_long_text() -> Seq<char> {
    "文件过大，无法校验"@
}

impl RunState {
    /// A batch that was announced.
    pub open spec fn started(id: Seq<char>, plan: SendPlan) -> Self {
        RunState {
            id,
            title: title_of(plan.roots@),
            directories: plan.plan_view().contents.directories,
            files: plan.plan_view().contents.files,
            total_files: capped_u32(plan.files@.len() as int),
            total_bytes: plan.total_bytes,
            phase: Phase::AnnounceSent,
            directories_sent: 0,
            files_begun: 0,
            file_id: Seq::empty(),
            content: Seq::empty(),
            seq: 0,
            in_flight: 0,
            transferred: 0,
            files_done: 0,
            last_emit: None,
        }
    }

    /// The announcement of a batch.
    pub open spec fn announcement(
        id: Seq<char>,
        plan: SendPlan,
        drop_at_cursor: bool,
        drag_id: Option<Seq<char>>,
        clipboard_id: Option<Seq<char>>,
    ) -> StepView {
        StepView::Transmit {
            payload: OutgoingView::BatchStart {
                id,
                roots: plan.roots@,
                total_files: capped_u32(plan.files@.len() as int),
                total_bytes: plan.total_bytes,
                drop_at_cursor,
                drag_id,
                clipboard_id,
            },
            wait: Some(id),
        }
    }

    /// Whether an event can come of the step before it.
    pub open spec fn expects(self, event: SendEvent) -> bool {
        match event {
            SendEvent::Failed(_) => self.phase != Phase::Over,
            SendEvent::Sent => self.phase == Phase::AnnounceSent || self.phase
                == Phase::DirectorySent || self.phase == Phase::StartSent || self.phase
                == Phase::ChunkSent || self.phase == Phase::EndSent || self.phase
                == Phase::BatchEndSent,
            SendEvent::Confirmed => self.phase == Phase::AnnounceWait || self.phase
                == Phase::StartWait || self.phase == Phase::EndWait || self.phase
                == Phase::BatchEndWait,
            SendEvent::Opened => self.phase == Phase::Opening,
            SendEvent::Data(data) => self.phase == Phase::Reading && data@.len() <= CHUNK_SIZE,
        }
    }

    pub open spec fn over(self) -> Self {
        RunState { phase: Phase::Over, ..self }
    }

    pub open spec fn in_phase(self, phase: Phase) -> Self {
        RunState { phase, ..self }
    }

    /// The next folder, the next file or the end of the batch. Before a folder
    /// and before a file the batch is stopped if `gate` says so.
    pub open spec fn next_item(self, gate: Option<Seq<char>>, fresh: Seq<char>) -> (Self, StepView) {
        if self.directories_sent < self.directories.len() {
            if gate is Some {
                (self.over(), StepView::Failed(gate->Some_0))
            } else {
                (
                    RunState {
                        directories_sent: self.directories_sent + 1,
                        phase: Phase::DirectorySent,
                        ..self
                    },
                    StepView::Transmit {
                        payload: OutgoingView::Directory {
                            batch: self.id,
                            path: self.directories[self.directories_sent as int],
                        },
                        wait: None,
                    },
                )
            }
        } else if self.files_begun < self.files.len() {
            if gate is Some {
                (self.over(), StepView::Failed(gate->Some_0))
            } else {
                let f = self.files[self.files_begun as int];
                (
                    RunState {
                        files_begun: self.files_begun + 1,
                        phase: Phase::StartSent,
                        file_id: fresh,
                        content: Seq::empty(),
                        seq: 0,
                        last_emit: None,
                        ..self
                    },
                    StepView::Transmit {
                        payload: OutgoingView::FileStart {
                            id: fresh,
                            batch: self.id,
                            path: f.relative,
                            size: f.size,
                        },
                        wait: Some(fresh),
                    },
                )
            }
        } else {
            (
                self.in_phase(Phase::BatchEndSent),
                StepView::Transmit {
                    payload: OutgoingView::BatchEnd { id: self.id },
                    wait: Some(self.id),
                },
            )
        }
    }

    /// The next piece of the open file, unless the batch is stopped.
    pub open spec fn read_on(self, gate: Option<Seq<char>>) -> (Self, StepView) {
        match gate {
            Some(e) => (self.over(), StepView::Failed(e)),
            None => (self.in_phase(Phase::Reading), StepView::Read { limit: CHUNK_SIZE }),
        }
    }

    /// A piece of the open file was read: it is sent, or the file is at its end.
    pub open spec fn on_data(self, data: Seq<u8>) -> (Self, StepView) {
        if data.len() == 0 {
            (
                RunState { content: Seq::empty(), phase: Phase::EndSent, ..self },
                StepView::Transmit {
                    payload: OutgoingView::FileEnd {
                        id: self.file_id,
                        sha256: digest_text(self.content)->Some_0,
                    },
                    wait: None,
                },
            )
        } else if self.content.len() + data.len() >= SHA256_LIMIT {
            (self.over(), StepView::Failed(too_long_text()))
        } else {
            (
                RunState {
                    content: self.content + data,
                    in_flight: data.len() as u64,
                    phase: Phase::ChunkSent,
                    ..self
                },
                StepView::Transmit {
                    payload: OutgoingView::Chunk { id: self.file_id, seq: self.seq, data },
                    wait: None,
                },
            )
        }
    }

    /// A piece of the file is on its way.
    pub open spec fn piece_sent(self) -> Self {
        RunState {
            seq: capped_u32(self.seq + 1),
            transferred: capped_u64(self.transferred + self.in_flight),
            ..self
        }
    }

    /// A file was confirmed.
    pub open spec fn file_done(self) -> Self {
        RunState { files_done: capped_u32(self.files_done + 1), ..self }
    }

    /// Whether the progress is reported now.
    pub open spec fn reports(self, now: u64) -> bool {
        self.last_emit matches Some(t) ==> now - t >= REPORT_INTERVAL
    }

    /// The report about the batch.
    pub open spec fn report(self, status: Status) -> UpdateView {
        UpdateView {
            id: self.id,
            direction: Direction::Send,
            name: self.title,
            status,
            transferred: if status == Status::Completed {
                self.total_bytes
            } else {
                self.transferred
            },
            total: self.total_bytes,
            files_done: if status == Status::Completed {
                self.total_files
            } else {
                self.files_done
            },
            files_total: self.total_files,
            error: None,
            path: None,
        }
    }

    /// What follows an event: the new state, what to do, and what to report.
    /// `gate` is the reason to stop, if there is one; `fresh` is the identifier of
    /// the next file.
    pub open spec fn after(
        self,
        event: SendEvent,
        gate: Option<Seq<char>>,
        fresh: Seq<char>,
        now: u64,
    ) -> (Self, StepView, Option<UpdateView>) {
        match event {
            SendEvent::Failed(e) => (self.over(), StepView::Failed(e@), None),
            SendEvent::Sent => if self.phase == Phase::AnnounceSent {
                (self.in_phase(Phase::AnnounceWait), StepView::Await { waiter: self.id }, None)
            } else if self.phase == Phase::DirectorySent {
                let n = self.next_item(gate, fresh);
                (n.0, n.1, None)
            } else if self.phase == Phase::StartSent {
                (self.in_phase(Phase::StartWait), StepView::Await { waiter: self.file_id }, None)
            } else if self.phase == Phase::ChunkSent {
                let sent = self.piece_sent();
                if sent.reports(now) {
                    let r = RunState { last_emit: Some(now), ..sent }.read_on(gate);
                    (r.0, r.1, Some(sent.report(Status::Transferring)))
                } else {
                    let r = sent.read_on(gate);
                    (r.0, r.1, None)
                }
            } else if self.phase == Phase::EndSent {
                (self.in_phase(Phase::EndWait), StepView::Await { waiter: self.file_id }, None)
            } else {
                (self.in_phase(Phase::BatchEndWait), StepView::Await { waiter: self.id }, None)
            },
            SendEvent::Confirmed => if self.phase == Phase::AnnounceWait {
                let n = self.next_item(gate, fresh);
                (n.0, n.1, None)
            } else if self.phase == Phase::StartWait {
                (
                    self.in_phase(Phase::Opening),
                    StepView::Open {
                        handle: self.files[self.files_begun - 1].handle,
                        wait: self.file_id,
                    },
                    None,
                )
            } else if self.phase == Phase::EndWait {
                let done = self.file_done();
                let n = done.next_item(gate, fresh);
                (n.0, n.1, Some(done.report(Status::Transferring)))
            } else {
                (self.over(), StepView::Finished, Some(self.report(Status::Completed)))
            },
            SendEvent::Opened => {
                let r = self.read_on(gate);
                (r.0, r.1, None)
            },
            SendEvent::Data(data) => {
                let d = self.on_data(data@);
                (d.0, d.1, None)
            },
        }
    }
}

impl BatchRun {
    pub closed spec fn wf(&self) -> bool {
        &&& self.digest.wf()
        &&& self.read_bytes == self.digest@.len()
        &&& self.read_bytes < SHA256_LIMIT
        &&& self.directories_sent <= self.directories@.len()
        &&& self.files_begun <= self.files@.len()
        &&& self.phase == Phase::StartWait ==> self.files_begun > 0
        &&& self.phase == Phase::StartSent ==> self.files_begun > 0
    }

    /// Announces a batch.
    pub fn start(
        id: &str,
        plan: SendPlan,
        drop_at_cursor: bool,
        drag_id: Option<String>,
        clipboard_id: Option<String>,
    ) -> (r: (Self, SendStep))
        ensures
            r.0.wf(),
            ({
                let p = plan.plan_view();
                let total_files = capped_u32(plan.files@.len() as int);
                &&& r.0@ == RunState {
                    id: id@,
                    title: title_of(plan.roots@),
                    directories: p.contents.directories,
                    files: p.contents.files,
                    total_files,
                    total_bytes: plan.total_bytes,
                    phase: Phase::AnnounceSent,
                    directories_sent: 0,
                    files_begun: 0,
                    file_id: Seq::empty(),
                    content: Seq::empty(),
                    seq: 0,
                    in_flight: 0,
                    transferred: 0,
                    files_done: 0,
                    last_emit: None,
                }
                &&& r.1.shows(
                    StepView::Transmit {
                        payload: OutgoingView::BatchStart {
                            id: id@,
                            roots: plan.roots@,
                            total_files,
                            total_bytes: plan.total_bytes,
                            drop_at_cursor,
                            drag_id: opt_text(drag_id),
                            clipboard_id: opt_text(clipboard_id),
                        },
                        wait: Some(id@),
                    },
                )
            }),
            r.0@ == RunState::started(id@, plan),
            r.1.shows(
                RunState::announcement(
                    id@,
                    plan,
                    drop_at_cursor,
                    opt_text(drag_id),
                    opt_text(clipboard_id),
                ),
            ),
    {
        let title = join_names(&plan.roots);
        let count: usize = plan.files.len();
        let total_files: u32 = if count as u64 > u32::MAX as u64 { u32::MAX } else { count as u32 };
        let step = SendStep::Transmit {
            payload: Payload::FileBatchStart {
                id: id.to_owned(),
                roots: plan.roots,
                total_files,
                total_bytes: plan.total_bytes,
                drop_at_cursor,
                drag_id,
                clipboard_id,
            },
            wait: Some(id.to_owned()),
        };
        let run = BatchRun {
            id: id.to_owned(),
            title,
            directories: plan.directories,
            files: plan.files,
            total_files,
            total_bytes: plan.total_bytes,
            phase: Phase::AnnounceSent,
            directories_sent: 0,
            files_begun: 0,
            file_id: String::new(),
            digest: FileDigest::new(),
            read_bytes: 0,
            seq: 0,
            in_flight: 0,
            transferred: 0,
            files_done: 0,
            last_emit: None,
        };
        (run, step)
    }

    fn fail(&mut self, error: String) -> (step: SendStep)
        requires
            old(self).wf(),
        ensures
            final(self).wf(),
            final(self)@ == old(self)@.over(),
            step.shows(StepView::Failed(error@)),
    {
        self.phase = Phase::Over;
        SendStep::Failed(error)
    }

    fn next_item(&mut self, gate: Option<String>, fresh: String) -> (step: SendStep)
        requires
            old(self).wf(),
        ensures
            final(self).wf(),
            final(self)@ == old(self)@.next_item(opt_text(gate), fresh@).0,
            step.shows(old(self)@.next_item(opt_text(gate), fresh@).1),
    {
        if self.directories_sent < self.directories.len() {
            match gate {
                Some(e) => {
                    return self.fail(e);
                },
                None => {},
            }
            let path = self.directories[self.directories_sent].clone();
            assert(texts(self.directories@)[self.directories_sent as int] == path@);
            self.directories_sent = self.directories_sent + 1;
            self.phase = Phase::DirectorySent;
            SendStep::Transmit {
                payload: Payload::FileDirectory { batch_id: self.id.clone(), path },
                wait: None,
            }
        } else if self.files_begun < self.files.len() {
            match gate {
                Some(e) => {
                    return self.fail(e);
                },
                None => {},
            }
            let path = self.files[self.files_begun].relative.clone();
            let size: u64 = self.files[self.files_begun].size;
            assert(file_views(self.files@)[self.files_begun as int].relative == path@);
            self.files_begun = self.files_begun + 1;
            self.phase = Phase::StartSent;
            self.file_id = fresh.clone();
            self.digest = FileDigest::new();
            self.read_bytes = 0;
            self.seq = 0;
            self.last_emit = None;
            SendStep::Transmit {
                payload: Payload::FileStart {
                    id: fresh.clone(),
                    batch_id: self.id.clone(),
                    path,
                    size,
                },
                wait: Some(fresh),
            }
        } else {
            self.phase = Phase::BatchEndSent;
            SendStep::Transmit {
                payload: Payload::FileBatchEnd { id: self.id.clone() },
                wait: Some(self.id.clone()),
            }
        }
    }

    fn read_on(&mut self, gate: Option<String>) -> (step: SendStep)
        requires
            old(self).wf(),
        ensures
            final(self).wf(),
            final(self)@ == old(self)@.read_on(opt_text(gate)).0,
            step.shows(old(self)@.read_on(opt_text(gate)).1),
    {
        match gate {
            Some(e) => self.fail(e),
            None => {
                self.phase = Phase::Reading;
                SendStep::Read { limit: CHUNK_SIZE }
            },
        }
    }

    fn on_data(&mut self, data: Vec<u8>) -> (step: SendStep)
        requires
            old(self).wf(),
        ensures
            final(self).wf(),
            final(self)@ == old(self)@.on_data(data@).0,
            step.shows(old(self)@.on_data(data@).1),
    {
        let n: usize = data.len();
        if n == 0 {
            let mut digest = FileDigest::new();
            std::mem::swap(&mut digest, &mut self.digest);
            self.read_bytes = 0;
            self.phase = Phase::EndSent;
            match digest.finish() {
                Some(sha256) => SendStep::Transmit {
                    payload: Payload::FileEnd { id: self.file_id.clone(), sha256 },
                    wait: None,
                },
                None => SendStep::Read { limit: CHUNK_SIZE },
            }
        } else if n as u64 >= SHA256_LIMIT - self.read_bytes {
            self.fail("文件过大，无法校验".to_owned())
        } else {
            self.digest.update(data.as_slice());
            self.read_bytes = self.read_bytes + n as u64;
            self.in_flight = n as u64;
            self.phase = Phase::ChunkSent;
            SendStep::Transmit {
                payload: Payload::FileChunk { id: self.file_id.clone(), seq: self.seq, data },
                wait: None,
            }
        }
    }

    fn update(&self, status: Status) -> (u: TransferUpdate)
        ensures
            u@ == self@.report(status),
    {
        let completed = status == Status::Completed;
        TransferUpdate {
            id: self.id.clone(),
            direction: Direction::Send,
            name: self.title.clone(),
            status,
            transferred: if completed { self.total_bytes } else { self.transferred },
            total: self.total_bytes,
            files_done: if completed { self.total_files } else { self.files_done },
            files_total: self.total_files,
            error: None,
            path: None,
        }
    }

    /// Takes what came of the last step and says what to do next. `gate` is the
    /// reason to stop, if there is one; `fresh` is the identifier of the next
    /// file, should one begin.
    pub fn next_with_id(
        &mut self,
        event: SendEvent,
        gate: Option<String>,
        fresh: String,
        now: u64,
    ) -> (r: (SendStep, Option<TransferUpdate>))
        requires
            old(self).wf(),
            old(self)@.expects(event),
        ensures
            final(self).wf(),
            ({
                let a = old(self)@.after(event, opt_text(gate), fresh@, now);
                &&& final(self)@ == a.0
                &&& r.0.shows(a.1)
                &&& match a.2 {
                    Some(u) => r.1 matches Some(t) && t@ == u,
                    None => r.1 is None,
                }
            }),
    {
        match event {
            SendEvent::Failed(e) => (self.fail(e), None),
            SendEvent::Sent => match self.phase {
                Phase::AnnounceSent => {
                    self.phase = Phase::AnnounceWait;
                    (SendStep::Await { waiter: self.id.clone() }, None)
                },
                Phase::DirectorySent => (self.next_item(gate, fresh), None),
                Phase::StartSent => {
                    self.phase = Phase::StartWait;
                    (SendStep::Await { waiter: self.file_id.clone() }, None)
                },
                Phase::ChunkSent => {
                    self.seq = self.seq.saturating_add(1);
                    self.transferred = self.transferred.saturating_add(self.in_flight);
                    let due: bool = match self.last_emit {
                        Some(t) => now >= t && now - t >= REPORT_INTERVAL,
                        None => true,
                    };
                    if due {
                        let u = self.update(Status::Transferring);
                        self.last_emit = Some(now);
                        (self.read_on(gate), Some(u))
                    } else {
                        (self.read_on(gate), None)
                    }
                },
                Phase::EndSent => {
                    self.phase = Phase::EndWait;
                    (SendStep::Await { waiter: self.file_id.clone() }, None)
                },
                _ => {
                    self.phase = Phase::BatchEndWait;
                    (SendStep::Await { waiter: self.id.clone() }, None)
                },
            },
            SendEvent::Confirmed => match self.phase {
                Phase::AnnounceWait => (self.next_item(gate, fresh), None),
                Phase::StartWait => {
                    let handle: u64 = self.files[self.files_begun - 1].handle;
                    assert(file_views(self.files@)[self.files_begun - 1].handle == handle);
                    self.phase = Phase::Opening;
                    (SendStep::Open { handle, wait: self.file_id.clone() }, None)
                },
                Phase::EndWait => {
                    self.files_done = self.files_done.saturating_add(1);
                    let u = self.update(Status::Transferring);
                    (self.next_item(gate, fresh), Some(u))
                },
                _ => {
                    let u = self.update(Status::Completed);
                    self.phase = Phase::Over;
                    (SendStep::Finished, Some(u))
                },
            },
            SendEvent::Opened => (self.read_on(gate), None),
            SendEvent::Data(data) => (self.on_data(data), None),
        }
    }

    /// Takes what came of the last step and says what to do next, with a new
    /// identifier for the next file.
    pub fn next(&mut self, event: SendEvent, gate: Option<String>, now: u64) -> (r: (
        SendStep,
        Option<TransferUpdate>,
    ))
        requires
            old(self).wf(),
            old(self)@.expects(event),
        ensures
            final(self).wf(),
            exists|fresh: Seq<char>| #[trigger]
                is_id(fresh) && ({
                    let a = old(self)@.after(event, opt_text(gate), fresh, now);
                    &&& final(self)@ == a.0
                    &&& r.0.shows(a.1)
                    &&& match a.2 {
                        Some(u) => r.1 matches Some(t) && t@ == u,
                        None => r.1 is None,
                    }
                }),
    {
        let fresh = fresh_id();
        self.next_with_id(event, gate, fresh, now)
    }
}

/// What the sending side remembers.
pub struct BooksState<P> {
    /// What was asked for and can be tried again.
    pub retries: Map<Seq<char>, Seq<P>>,
    /// What is being dragged to the peer.
    pub pending_drags: Map<Seq<char>, Seq<P>>,
    pub cancelled: Set<Seq<char>>,
    /// Whose confirmations are waited for.
    pub waiters: Set<Seq<char>>,
    /// The batch that carries the files that were copied last.
    pub clipboard_batch: Option<Seq<char>>,
}

/// The books of the sending side. `P` is a path of the sending machine.
pub struct FileSender<P> {
    retries: Table<Vec<P>>,
    pending_drags: Table<Vec<P>>,
    cancelled: Table<()>,
    waiters: Table<()>,
    clipboard_batch: Option<String>,
}

impl<P> View for FileSender<P> {
    type V = BooksState<P>;

    closed spec fn view(&self) -> BooksState<P> {
        BooksState {
            retries: self.retries@.map_values(|v: Vec<P>| v@),
            pending_drags: self.pending_drags@.map_values(|v: Vec<P>| v@),
            cancelled: self.cancelled@.dom(),
            waiters: self.waiters@.dom(),
            clipboard_batch: opt_text(self.clipboard_batch),
        }
    }
}

/// Why nothing can be sent, if nothing can.
pub open spec fn send_error(count: nat, connected: bool) -> Option<Seq<char>> {
    if count == 0 {
        Some("没有选择文件或文件夹"@)
    } else if !connected {
        Some("对端未连接，无法发送"@)
    } else {
        None
    }
}

/// Why a running batch must stop, if it must.
pub open spec fn stop_reason(cancelled: bool, connected: bool) -> Option<Seq<char>> {
    if cancelled {
        Some("传输已取消"@)
    } else if !connected {
        Some("网络连接已断开"@)
    } else {
        None
    }
}

/// The report about a batch of which nothing is known yet.
pub open spec fn bare_report(
    id: Seq<char>,
    name: Seq<char>,
    status: Status,
    error: Option<Seq<char>>,
) -> UpdateView {
    UpdateView {
        id,
        direction: Direction::Send,
        name,
        status,
        transferred: 0,
        total: 0,
        files_done: 0,
        files_total: 0,
        error,
        path: None,
    }
}

fn bare_update(id: &str, name: &str, status: Status, error: Option<String>) -> (u: TransferUpdate)
    ensures
        u@ == bare_report(id@, name@, status, opt_text(error)),
{
    TransferUpdate {
        id: id.to_owned(),
        direction: Direction::Send,
        name: name.to_owned(),
        status,
        transferred: 0,
        total: 0,
        files_done: 0,
        files_total: 0,
        error,
        path: None,
    }
}

/// The report about a batch that did not go well.
pub open spec fn end_report(id: Seq<char>, error: Seq<char>) -> UpdateView {
    bare_report(
        id,
        "文件传输"@,
        if error == "传输已取消"@ {
            Status::Cancelled
        } else {
            Status::Failed
        },
        Some(error),
    )
}

/// The result that an answer of the peer carries, and whose it is.
pub open spec fn confirmation(p: Payload) -> Option<(Seq<char>, Result<(), Seq<char>>)> {
    match p {
        Payload::FileReady { id, ok, error } => Some((id@, verdict(ok, error))),
        Payload::FileResult { id, ok, error } => Some((id@, verdict(ok, error))),
        Payload::FileBatchReady { id, ok, error } => Some((id@, verdict(ok, error))),
        Payload::FileBatchResult { id, ok, error, .. } => Some((id@, verdict(ok, error))),
        _ => None,
    }
}

pub open spec fn verdict(ok: bool, error: Option<String>) -> Result<(), Seq<char>> {
    if ok {
        Ok(())
    } else {
        match error {
            Some(e) => Err(e@),
            None => Err("对端接收失败"@),
        }
    }
}

fn judge(ok: bool, error: &Option<String>) -> (r: Result<(), String>)
    ensures
        match verdict(ok, *error) {
            Ok(()) => r is Ok,
            Err(e) => r matches Err(t) && t@ == e,
        },
{
    if ok {
        Ok(())
    } else {
        match error {
            Some(e) => Err(e.clone()),
            None => Err("对端接收失败".to_owned()),
        }
    }
}

/// A batch that was accepted for sending: its identifier, what it is part of, and
/// what to report.
pub struct Enqueued {
    pub id: String,
    pub drop_at_cursor: bool,
    pub drag_id: Option<String>,
    pub clipboard_id: Option<String>,
    pub update: TransferUpdate,
}

/// An answer of the peer for something that is waited for.
pub struct Confirmation {
    pub waiter: String,
    pub result: Result<(), String>,
}

impl<P> BooksState<P> {
    pub open spec fn initial() -> Self {
        BooksState {
            retries: Map::empty(),
            pending_drags: Map::empty(),
            cancelled: Set::empty(),
            waiters: Set::empty(),
            clipboard_batch: None,
        }
    }

    /// Why a batch cannot be tried again, if it cannot.
    pub open spec fn retry_error(self, id: Seq<char>, connected: bool) -> Option<Seq<char>> {
        if !self.retries.contains_key(id) {
            Some("找不到可重试的传输任务"@)
        } else if !connected {
            Some("对端未连接，无法发送"@)
        } else {
            None
        }
    }

    /// A batch is tried again under a new identifier.
    pub open spec fn retried(self, id: Seq<char>, new_id: Seq<char>) -> Self {
        BooksState { retries: self.retries.insert(new_id, self.retries[id]).remove(id), ..self }
    }

    /// Files are being dragged to the peer.
    pub open spec fn with_drag(self, id: Seq<char>, paths: Seq<P>) -> Self {
        BooksState { pending_drags: self.pending_drags.insert(id, paths), ..self }
    }

    /// A drag is over.
    pub open spec fn without_drag(self, id: Seq<char>) -> Self {
        BooksState { pending_drags: self.pending_drags.remove(id), ..self }
    }

    /// An answer of the peer arrived.
    pub open spec fn answered(self, p: Payload) -> Self {
        match confirmation(p) {
            Some((id, _)) => BooksState { waiters: self.waiters.remove(id), ..self },
            None => self,
        }
    }

    /// Whom an answer of the peer concerns, and what it says, where it is waited for.
    pub open spec fn concerns(self, p: Payload) -> Option<(Seq<char>, Result<(), Seq<char>>)> {
        match confirmation(p) {
            Some((id, result)) if self.waiters.contains(id) => Some((id, result)),
            _ => None,
        }
    }

    /// A batch is over, and whether it went well.
    pub open spec fn ended(self, id: Seq<char>, well: bool) -> Self {
        BooksState {
            cancelled: self.cancelled.remove(id),
            retries: if well {
                self.retries.remove(id)
            } else {
                self.retries
            },
            ..self
        }
    }

    /// A batch with these paths was accepted.
    pub open spec fn enqueued(self, id: Seq<char>, paths: Seq<P>) -> Self {
        BooksState { retries: self.retries.insert(id, paths), ..self }
    }
}

impl Enqueued {
    /// Whether this is the acceptance of the batch `id`, for a drag or for a copy
    /// where they are given.
    pub open spec fn is_for(
        self,
        id: Seq<char>,
        drop_at_cursor: bool,
        drag_id: Option<Seq<char>>,
        clipboard_id: Option<Seq<char>>,
    ) -> bool {
        &&& self.id@ == id
        &&& self.drop_at_cursor == drop_at_cursor
        &&& opt_text(self.drag_id) == drag_id
        &&& opt_text(self.clipboard_id) == clipboard_id
        &&& self.update@ == bare_report(id, "准备传输"@, Status::Preparing, None)
    }
}

impl<P> FileSender<P> {
    pub closed spec fn wf(&self) -> bool {
        &&& self.retries.wf()
        &&& self.pending_drags.wf()
        &&& self.cancelled.wf()
        &&& self.waiters.wf()
        &&& forall|id: Seq<char>| #[trigger]
            self.retries@.contains_key(id) ==> self.retries@[id]@.len() > 0
    }

    /// Nothing was asked for yet.
    pub fn new() -> (s: Self)
        ensures
            s.wf(),
            s@ == BooksState::<P>::initial(),
    {
        let s = FileSender {
            retries: Table::new(),
            pending_drags: Table::new(),
            cancelled: Table::new(),
            waiters: Table::new(),
            clipboard_batch: None,
        };
        assert(s@.retries =~= Map::<Seq<char>, Seq<P>>::empty());
        assert(s@.pending_drags =~= Map::<Seq<char>, Seq<P>>::empty());
        assert(s@.cancelled =~= Set::<Seq<char>>::empty());
        assert(s@.waiters =~= Set::<Seq<char>>::empty());
        s
    }

    /// Accepts a batch under the identifier `id`.
    pub fn enqueue_with_id(
        &mut self,
        id: String,
        paths: Vec<P>,
        drop_at_cursor: bool,
        drag_id: Option<String>,
        clipboard_id: Option<String>,
        connected: bool,
    ) -> (r: Result<Enqueued, String>)
        requires
            old(self).wf(),
        ensures
            final(self).wf(),
            match send_error(paths@.len(), connected) {
                Some(e) => final(self)@ == old(self)@ && (r matches Err(t) && t@ == e),
                None => final(self)@ == old(self)@.enqueued(id@, paths@) && (r matches Ok(q)
                    && q.is_for(id@, drop_at_cursor, opt_text(drag_id), opt_text(clipboard_id))),
            },
    {
        if paths.len() == 0 {
            return Err("没有选择文件或文件夹".to_owned());
        }
        if !connected {
            return Err("对端未连接，无法发送".to_owned());
        }
        let ghost view = |v: Vec<P>| v@;
        proof {
            assert(self.retries@.insert(id@, paths).map_values(view)
                =~= self.retries@.map_values(view).insert(id@, paths@));
        }
        self.retries.insert(id.as_str(), paths);
        let update = bare_update(id.as_str(), "准备传输", Status::Preparing, None);
        Ok(Enqueued { id, drop_at_cursor, drag_id, clipboard_id, update })
    }

    /// Accepts a batch.
    pub fn enqueue_paths(
        &mut self,
        paths: Vec<P>,
        drop_at_cursor: bool,
        drag_id: Option<String>,
        clipboard_id: Option<String>,
        connected: bool,
    ) -> (r: Result<Enqueued, String>)
        requires
            old(self).wf(),
        ensures
            final(self).wf(),
            match send_error(paths@.len(), connected) {
                Some(e) => final(self)@ == old(self)@ && (r matches Err(t) && t@ == e),
                None => r matches Ok(q) && is_id(q.id@) && q.is_for(
                    q.id@,
                    drop_at_cursor,
                    opt_text(drag_id),
                    opt_text(clipboard_id),
                ) && final(self)@ == old(self)@.enqueued(q.id@, paths@),
            },
    {
        let id = fresh_id();
        self.enqueue_with_id(id, paths, drop_at_cursor, drag_id, clipboard_id, connected)
    }

    /// Accepts files and folders that the user chose.
    pub fn send_paths(&mut self, paths: Vec<P>, connected: bool) -> (r: Result<Enqueued, String>)
        requires
            old(self).wf(),
        ensures
            final(self).wf(),
            match send_error(paths@.len(), connected) {
                Some(e) => final(self)@ == old(self)@ && (r matches Err(t) && t@ == e),
                None => r matches Ok(q) && is_id(q.id@) && q.is_for(q.id@, false, None, None)
                    && final(self)@ == old(self)@.enqueued(q.id@, paths@),
            },
    {
        self.enqueue_paths(paths, false, None, None, connected)
    }

    /// Accepts the files of a drag.
    pub fn send_drag_session(&mut self, drag_id: String, paths: Vec<P>, connected: bool) -> (r:
        Result<Enqueued, String>)
        requires
            old(self).wf(),
        ensures
            final(self).wf(),
            match send_error(paths@.len(), connected) {
                Some(e) => final(self)@ == old(self)@ && (r matches Err(t) && t@ == e),
                None => r matches Ok(q) && is_id(q.id@) && q.is_for(
                    q.id@,
                    false,
                    Some(drag_id@),
                    None,
                ) && final(self)@ == old(self)@.enqueued(q.id@, paths@),
            },
    {
        self.enqueue_paths(paths, false, Some(drag_id), None, connected)
    }

    /// Accepts files that were copied, as the revision `clipboard_id`. They are
    /// the current copy from now on.
    pub fn send_clipboard_paths(
        &mut self,
        clipboard_id: String,
        paths: Vec<P>,
        connected: bool,
    ) -> (r: Result<Enqueued, String>)
        requires
            old(self).wf(),
        ensures
            final(self).wf(),
            match send_error(paths@.len(), connected) {
                Some(e) => final(self)@ == old(self)@ && (r matches Err(t) && t@ == e),
                None => r matches Ok(q) && is_id(q.id@) && q.is_for(
                    q.id@,
                    false,
                    None,
                    Some(clipboard_id@),
                ) && final(self)@ == (BooksState {
                    clipboard_batch: Some(q.id@),
                    ..old(self)@.enqueued(q.id@, paths@)
                }),
            },
    {
        match self.enqueue_paths(paths, false, None, Some(clipboard_id), connected) {
            Ok(q) => {
                self.clipboard_batch = Some(q.id.clone());
                Ok(q)
            },
            Err(e) => Err(e),
        }
    }

    /// Something else was copied: the files that were copied before are no longer
    /// wanted. Returns what to tell the peer.
    pub fn cancel_clipboard_transfer(&mut self) -> (r: Option<Payload>)
        requires
            old(self).wf(),
        ensures
            final(self).wf(),
            match old(self)@.clipboard_batch {
                Some(id) => final(self)@ == (BooksState {
                    cancelled: old(self)@.cancelled.insert(id),
                    clipboard_batch: None,
                    ..old(self)@
                }) && (r matches Some(Payload::FileBatchCancel { id: i }) && i@ == id),
                None => final(self)@ == old(self)@ && r is None,
            },
    {
        match self.clipboard_batch.take() {
            Some(id) => Some(self.cancel(id.as_str())),
            None => None,
        }
    }

    /// Notes that files are being dragged to the peer, under the identifier `id`.
    pub fn offer_drag_with_id(&mut self, id: String, paths: Vec<P>, connected: bool) -> (r: Result<
        String,
        String,
    >)
        requires
            old(self).wf(),
        ensures
            final(self).wf(),
            if paths@.len() == 0 || !connected {
                final(self)@ == old(self)@ && (r matches Err(e) && e@ == "no connected file drag"@)
            } else {
                final(self)@ == (BooksState {
                    pending_drags: old(self)@.pending_drags.insert(id@, paths@),
                    ..old(self)@
                }) && (r matches Ok(i) && i@ == id@)
            },
            paths@.len() > 0 && connected ==> final(self)@ == old(self)@.with_drag(id@, paths@),
    {
        if paths.len() == 0 || !connected {
            return Err("no connected file drag".to_owned());
        }
        let ghost view = |v: Vec<P>| v@;
        proof {
            assert(self.pending_drags@.insert(id@, paths).map_values(view)
                =~= self.pending_drags@.map_values(view).insert(id@, paths@));
        }
        self.pending_drags.insert(id.as_str(), paths);
        Ok(id)
    }

    /// Notes that files are being dragged to the peer.
    pub fn offer_drag_paths(&mut self, paths: Vec<P>, connected: bool) -> (r: Result<String, String>)
        requires
            old(self).wf(),
        ensures
            final(self).wf(),
            if paths@.len() == 0 || !connected {
                final(self)@ == old(self)@ && (r matches Err(e) && e@ == "no connected file drag"@)
            } else {
                r matches Ok(i) && is_id(i@) && final(self)@ == (BooksState {
                    pending_drags: old(self)@.pending_drags.insert(i@, paths@),
                    ..old(self)@
                })
            },
    {
        let id = fresh_id();
        self.offer_drag_with_id(id, paths, connected)
    }

    /// What is dragged was looked at, though not what is below it. Returns the
    /// announcement for the peer, or why there is none; a drag that cannot be announced
    /// is dropped.
    pub fn drag_prepared(&mut self, id: &str, tops: &Vec<TopEntry>) -> (r: Result<Payload, String>)
        requires
            old(self).wf(),
        ensures
            final(self).wf(),
            match roots_of(tops@) {
                Ok(roots) => final(self)@ == old(self)@ && (r matches Ok(
                    Payload::DragStart { id: i, roots: v },
                ) && i@ == id@ && root_views(v@) == roots),
                Err(reason) => r matches Err(e) && e@ == reason && final(self)@ == (BooksState {
                    pending_drags: old(self)@.pending_drags.remove(id@),
                    ..old(self)@
                }),
            },
    {
        match build_roots(tops) {
            Ok(roots) => Ok(Payload::DragStart { id: id.to_owned(), roots }),
            Err(reason) => {
                self.cancel_drag(id);
                Err(reason)
            },
        }
    }

    fn take_drag(&mut self, id: &str) -> (r: Option<Vec<P>>)
        requires
            old(self).wf(),
        ensures
            final(self).wf(),
            final(self)@ == (BooksState {
                pending_drags: old(self)@.pending_drags.remove(id@),
                ..old(self)@
            }),
            r is Some == old(self)@.pending_drags.contains_key(id@),
            r matches Some(v) ==> v@ == old(self)@.pending_drags[id@],
    {
        let ghost view = |v: Vec<P>| v@;
        proof {
            assert(self.pending_drags@.remove(id@).map_values(view)
                =~= self.pending_drags@.map_values(view).remove(id@));
        }
        self.pending_drags.remove(id)
    }

    /// The drop target wants the files of a drag: they are sent now, once.
    pub fn commit_drag(&mut self, id: &str, connected: bool) -> (r: Result<Enqueued, String>)
        requires
            old(self).wf(),
        ensures
            final(self).wf(),
            ({
                let rest = BooksState {
                    pending_drags: old(self)@.pending_drags.remove(id@),
                    ..old(self)@
                };
                if !old(self)@.pending_drags.contains_key(id@) {
                    final(self)@ == old(self)@ && (r matches Err(e) && e@
                        == "drag session is no longer available"@)
                } else {
                    let paths = old(self)@.pending_drags[id@];
                    match send_error(paths.len(), connected) {
                        Some(e) => final(self)@ == rest && (r matches Err(t) && t@ == e),
                        None => r matches Ok(q) && is_id(q.id@) && q.is_for(
                            q.id@,
                            false,
                            Some(id@),
                            None,
                        ) && final(self)@ == rest.enqueued(q.id@, paths),
                    }
                }
            }),
            r matches Ok(q) ==> final(self)@ == old(self)@.without_drag(id@).enqueued(
                q.id@,
                old(self)@.pending_drags[id@],
            ),
    {
        match self.take_drag(id) {
            Some(paths) => self.send_drag_session(id.to_owned(), paths, connected),
            None => {
                assert(self@.pending_drags =~= old(self)@.pending_drags);
                Err("drag session is no longer available".to_owned())
            },
        }
    }

    /// A drag was given up.
    pub fn cancel_drag(&mut self, id: &str)
        requires
            old(self).wf(),
        ensures
            final(self).wf(),
            final(self)@ == old(self)@.without_drag(id@),
            final(self)@ == (BooksState {
                pending_drags: old(self)@.pending_drags.remove(id@),
                ..old(self)@
            }),
    {
        let _ = self.take_drag(id);
    }

    /// Sends what an earlier batch should have sent, as a new batch under the
    /// identifier `new_id`.
    pub fn retry_with_id(&mut self, id: &str, new_id: String, connected: bool) -> (r: Result<
        Enqueued,
        String,
    >)
        requires
            old(self).wf(),
        ensures
            final(self).wf(),
            match old(self)@.retry_error(id@, connected) {
                Some(e) => final(self)@ == old(self)@ && (r matches Err(t) && t@ == e),
                None => final(self)@ == old(self)@.retried(id@, new_id@) && (r matches Ok(q)
                    && q.is_for(new_id@, false, None, None)),
            },
    {
        let ghost view = |v: Vec<P>| v@;
        if !self.retries.contains(id) {
            return Err("找不到可重试的传输任务".to_owned());
        }
        if !connected {
            return Err("对端未连接，无法发送".to_owned());
        }
        proof {
            assert(self.retries@.contains_key(id@));
            assert(self.retries@.remove(id@).map_values(view)
                =~= self.retries@.map_values(view).remove(id@));
        }
        match self.retries.remove(id) {
            Some(paths) => {
                let r = self.enqueue_with_id(new_id, paths, false, None, None, connected);
                proof {
                    assert(self.retries@.remove(id@).map_values(view)
                        =~= self.retries@.map_values(view).remove(id@));
                }
                let _ = self.retries.remove(id);
                assert(self@.retries =~= old(self)@.retried(id@, new_id@).retries);
                r
            },
            None => Err("找不到可重试的传输任务".to_owned()),
        }
    }

    /// Sends what an earlier batch should have sent, as a new batch.
    pub fn retry(&mut self, id: &str, connected: bool) -> (r: Result<Enqueued, String>)
        requires
            old(self).wf(),
        ensures
            final(self).wf(),
            match old(self)@.retry_error(id@, connected) {
                Some(e) => final(self)@ == old(self)@ && (r matches Err(t) && t@ == e),
                None => r matches Ok(q) && is_id(q.id@) && q.is_for(q.id@, false, None, None)
                    && final(self)@ == old(self)@.retried(id@, q.id@),
            },
    {
        let new_id = fresh_id();
        self.retry_with_id(id, new_id, connected)
    }

    /// Cancels a batch. Returns what to tell the peer.
    pub fn cancel(&mut self, id: &str) -> (p: Payload)
        requires
            old(self).wf(),
        ensures
            final(self).wf(),
            final(self)@ == (BooksState {
                cancelled: old(self)@.cancelled.insert(id@),
                ..old(self)@
            }),
            p matches Payload::FileBatchCancel { id: i } && i@ == id@,
    {
        self.cancelled.insert(id, ());
        assert(self@.cancelled =~= old(self)@.cancelled.insert(id@));
        Payload::FileBatchCancel { id: id.to_owned() }
    }

    /// Whether a running batch may go on.
    pub fn ensure_not_cancelled(&self, id: &str, connected: bool) -> (r: Result<(), String>)
        requires
            self.wf(),
        ensures
            match stop_reason(self@.cancelled.contains(id@), connected) {
                Some(e) => r matches Err(t) && t@ == e,
                None => r is Ok,
            },
    {
        if self.cancelled.contains(id) {
            Err("传输已取消".to_owned())
        } else if !connected {
            Err("网络连接已断开".to_owned())
        } else {
            Ok(())
        }
    }

    /// What the batch `id` was asked to send.
    pub fn paths_of(&self, id: &str) -> (r: Option<&Vec<P>>)
        requires
            self.wf(),
        ensures
            r is Some == self@.retries.contains_key(id@),
            r matches Some(paths) ==> paths@ == self@.retries[id@],
    {
        self.retries.get(id)
    }

    /// A confirmation is waited for.
    pub fn register_waiter(&mut self, id: &str)
        requires
            old(self).wf(),
        ensures
            final(self).wf(),
            final(self)@ == (BooksState { waiters: old(self)@.waiters.insert(id@), ..old(self)@ }),
    {
        self.waiters.insert(id, ());
        assert(self@.waiters =~= old(self)@.waiters.insert(id@));
    }

    /// A confirmation is no longer waited for.
    pub fn drop_waiter(&mut self, id: &str)
        requires
            old(self).wf(),
        ensures
            final(self).wf(),
            final(self)@ == (BooksState { waiters: old(self)@.waiters.remove(id@), ..old(self)@ }),
    {
        let _ = self.waiters.remove(id);
        assert(self@.waiters =~= old(self)@.waiters.remove(id@));
    }

    /// An answer of the peer arrived. Tells whether the payload is one, and whom
    /// it concerns where it is waited for; each answer is taken once.
    pub fn handle_result(&mut self, payload: &Payload) -> (r: (bool, Option<Confirmation>))
        requires
            old(self).wf(),
        ensures
            final(self).wf(),
            r.0 == (confirmation(*payload) is Some),
            match confirmation(*payload) {
                Some((id, result)) => {
                    &&& final(self)@ == (BooksState {
                        waiters: old(self)@.waiters.remove(id),
                        ..old(self)@
                    })
                    &&& r.1 is Some == old(self)@.waiters.contains(id)
                    &&& r.1 matches Some(c) ==> c.waiter@ == id && match result {
                        Ok(()) => c.result is Ok,
                        Err(e) => c.result matches Err(t) && t@ == e,
                    }
                },
                None => final(self)@ == old(self)@ && r.1 is None,
            },
            final(self)@ == old(self)@.answered(*payload),
            match old(self)@.concerns(*payload) {
                Some((id, result)) => r.1 matches Some(c) && c.waiter@ == id && match result {
                    Ok(()) => c.result is Ok,
                    Err(e) => c.result matches Err(t) && t@ == e,
                },
                None => r.1 is None,
            },
    {
        let (id, result): (&String, Result<(), String>) = match payload {
            Payload::FileReady { id, ok, error } => (id, judge(*ok, error)),
            Payload::FileResult { id, ok, error } => (id, judge(*ok, error)),
            Payload::FileBatchReady { id, ok, error } => (id, judge(*ok, error)),
            Payload::FileBatchResult { id, ok, error, .. } => (id, judge(*ok, error)),
            _ => {
                return (false, None);
            },
        };
        let awaited = self.waiters.contains(id.as_str());
        self.drop_waiter(id.as_str());
        if awaited {
            (true, Some(Confirmation { waiter: id.clone(), result }))
        } else {
            (true, None)
        }
    }

    /// A batch is over. A batch that failed can be tried again; the peer and the
    /// user are told.
    pub fn batch_over(&mut self, id: &str, result: Result<(), String>) -> (r: Option<
        (Payload, TransferUpdate),
    >)
        requires
            old(self).wf(),
        ensures
            final(self).wf(),
            match result {
                Ok(()) => r is None && final(self)@ == (BooksState {
                    cancelled: old(self)@.cancelled.remove(id@),
                    retries: old(self)@.retries.remove(id@),
                    ..old(self)@
                }),
                Err(e) => {
                    let status = if e@ == "传输已取消"@ {
                        Status::Cancelled
                    } else {
                        Status::Failed
                    };
                    &&& final(self)@ == (BooksState {
                        cancelled: old(self)@.cancelled.remove(id@),
                        ..old(self)@
                    })
                    &&& r matches Some((p, u)) && (p matches Payload::FileBatchCancel { id: i }
                        && i@ == id@) && u@ == bare_report(
                        id@,
                        "文件传输"@,
                        status,
                        Some(e@),
                    )
                },
            },
            final(self)@ == old(self)@.ended(id@, result is Ok),
            result matches Err(e) ==> r matches Some((p, u)) && u@ == end_report(id@, e@),
    {
        let _ = self.cancelled.remove(id);
        assert(self@.cancelled =~= old(self)@.cancelled.remove(id@));
        match result {
            Ok(()) => {
                let ghost view = |v: Vec<P>| v@;
                proof {
                    assert(self.retries@.remove(id@).map_values(view)
                        =~= self.retries@.map_values(view).remove(id@));
                }
                let _ = self.retries.remove(id);
                None
            },
            Err(e) => {
                let status = if same_text(e.as_str(), "传输已取消") {
                    Status::Cancelled
                } else {
                    Status::Failed
                };
                let update = bare_update(id, "文件传输", status, Some(e));
                Some((Payload::FileBatchCancel { id: id.to_owned() }, update))
            },
        }
    }
}

/// Whether a wait for a confirmation is over at `now`, and why: the peer did not
/// answer in time, or the batch was stopped.
pub open spec fn wait_error(
    waiter: Seq<char>,
    stop: Option<Seq<char>>,
    began: u64,
    now: u64,
) -> Option<Seq<char>> {
    if stop is Some {
        stop
    } else if now - began >= RESULT_TIMEOUT {
        Some("等待对端确认超时: "@ + waiter)
    } else {
        None
    }
}

/// Tells, while a confirmation is waited for since `began`, whether to give up.
/// `stop` is the reason to stop the batch, if there is one.
pub fn check_wait(waiter: &str, stop: Option<String>, began: u64, now: u64) -> (r: Option<String>)
    ensures
        opt_text(r) == wait_error(waiter@, opt_text(stop), began, now),
{
    match stop {
        Some(e) => Some(e),
        None => if now >= began && now - began >= RESULT_TIMEOUT {
            let mut text = "等待对端确认超时: ".to_owned();
            text.push_str(waiter);
            Some(text)
        } else {
            None
        },
    }
}

/// How far a batch has come after `k` pieces of the open file were read and
/// sent.
pub open spec fn after_sending(r: RunState, pieces: Seq<Seq<u8>>, k: nat, now: u64) -> RunState
    decreases k,
{
    if k == 0 {
        r
    } else {
        after_sending(r, pieces, (k - 1) as nat, now).on_data(pieces[k - 1]).0.after(
            SendEvent::Sent,
            None,
            Seq::empty(),
            now,
        ).0
    }
}

/// A file is sent in pieces numbered from zero, each as it was read, and its end
/// carries the digest of all of them.
pub proof fn law_pieces_are_numbered_and_digested(
    r: RunState,
    pieces: Seq<Seq<u8>>,
    k: nat,
    now: u64,
)
    requires
        r.phase == Phase::Reading,
        r.content == Seq::<u8>::empty(),
        r.seq == 0,
        pieces.flatten().len() < SHA256_LIMIT,
        forall|i: int| 0 <= i < pieces.len() ==> (#[trigger] pieces[i]).len() > 0,
        k <= pieces.len(),
    ensures
        ({
            let s = after_sending(r, pieces, k, now);
            &&& s.phase == Phase::Reading
            &&& s.file_id == r.file_id
            &&& s.seq == capped_u32(k as int)
            &&& s.content == pieces.take(k as int).flatten()
            &&& k < pieces.len() ==> s.on_data(pieces[k as int]).1 == StepView::Transmit {
                payload: OutgoingView::Chunk {
                    id: r.file_id,
                    seq: capped_u32(k as int),
                    data: pieces[k as int],
                },
                wait: None,
            }
            &&& k == pieces.len() ==> s.on_data(Seq::empty()).1 == StepView::Transmit {
                payload: OutgoingView::FileEnd {
                    id: r.file_id,
                    sha256: digest_text(pieces.flatten())->Some_0,
                },
                wait: None,
            }
        }),
    decreases k,
{
    if k > 0 {
        let j = (k - 1) as nat;
        law_pieces_are_numbered_and_digested(r, pieces, j, now);
        assert(pieces.take(k as int) =~= pieces.take(j as int).push(pieces[j as int]));
        pieces.take(j as int).lemma_flatten_push(pieces[j as int]);
        lemma_part_is_not_longer(pieces, k as int);
    } else {
        assert(pieces.take(0) =~= Seq::<Seq<u8>>::empty());
    }
    if k < pieces.len() {
        assert(pieces.take(k as int + 1) =~= pieces.take(k as int).push(pieces[k as int]));
        pieces.take(k as int).lemma_flatten_push(pieces[k as int]);
        lemma_part_is_not_longer(pieces, k as int + 1);
    } else {
        assert(pieces.take(k as int) =~= pieces);
    }
}

/// What one machine sends of a file, the other accepts: every piece in turn, and
/// with the end of the file the whole of it, byte for byte.
pub proof fn law_sent_file_is_accepted(
    r: RunState,
    s: ReceiverState,
    pieces: Seq<Seq<u8>>,
    k: nat,
    now: u64,
)
    requires
        r.phase == Phase::Reading,
        r.content == Seq::<u8>::empty(),
        r.seq == 0,
        s.files.contains_key(r.file_id),
        s.files[r.file_id].content == Seq::<u8>::empty(),
        s.files[r.file_id].next_seq == 0,
        s.files[r.file_id].expected == pieces.flatten().len(),
        pieces.flatten().len() < SHA256_LIMIT,
        forall|i: int| 0 <= i < pieces.len() ==> (#[trigger] pieces[i]).len() > 0,
        k <= pieces.len(),
    ensures
        ({
            let sender = after_sending(r, pieces, k, now);
            let receiver = after_pieces(s, r.file_id, pieces, k, now);
            &&& k < pieces.len() ==> (sender.on_data(pieces[k as int]).1 matches StepView::Transmit {
                payload: OutgoingView::Chunk { id, seq, data },
                ..
            } && chunk_error(receiver, id, seq, data.len()) is None)
            &&& k == pieces.len() ==> (sender.on_data(Seq::empty()).1 matches StepView::Transmit {
                payload: OutgoingView::FileEnd { id, sha256 },
                ..
            } && receiver.end_handling(id, sha256, now) is Finish
                && receiver.files[id].content == pieces.flatten())
        }),
{
    law_pieces_are_numbered_and_digested(r, pieces, k, now);
    law_a_file_arrives_whole(s, r.file_id, pieces, k, now);
    if k == pieces.len() {
        assert(pieces.take(k as int) =~= pieces);
    }
}

/// Every piece of a file that is sent holds something, and no more than `CHUNK_SIZE`
/// bytes; and no more is asked for.
pub proof fn law_pieces_are_small(
    r: RunState,
    event: SendEvent,
    gate: Option<Seq<char>>,
    fresh: Seq<char>,
    now: u64,
)
    requires
        r.expects(event),
    ensures
        ({
            let step = r.after(event, gate, fresh, now).1;
            &&& step matches StepView::Transmit {
                payload: OutgoingView::Chunk { data, .. },
                ..
            } ==> 1 <= data.len() <= CHUNK_SIZE
            &&& step matches StepView::Read { limit } ==> limit == CHUNK_SIZE
        }),
{
}

/// A batch that is stopped begins no further folder, file or piece.
pub proof fn law_a_stopped_batch_goes_no_further(
    r: RunState,
    event: SendEvent,
    reason: Seq<char>,
    fresh: Seq<char>,
    now: u64,
)
    requires
        r.expects(event),
    ensures
        ({
            let step = r.after(event, Some(reason), fresh, now).1;
            &&& !(step is Read)
            &&& step matches StepView::Transmit { payload, .. } ==> !(payload is Directory) && !(
            payload is FileStart)
        }),
{
}

/// The end of a batch is announced only after every folder was announced and
/// every file was begun.
pub proof fn law_batch_ends_after_everything(
    r: RunState,
    event: SendEvent,
    gate: Option<Seq<char>>,
    fresh: Seq<char>,
    now: u64,
)
    requires
        r.expects(event),
    ensures
        r.after(event, gate, fresh, now).1 matches StepView::Transmit { payload, .. } && payload
            is BatchEnd ==> r.directories_sent >= r.directories.len() && r.files_begun
            >= r.files.len(),
{
}

/// A batch that failed or was cancelled can be tried again; one that succeeded
/// cannot.
pub proof fn law_only_failures_are_retried<P>(
    books: BooksState<P>,
    id: Seq<char>,
    paths: Seq<P>,
    connected: bool,
)
    ensures
        books.enqueued(id, paths).retries[id] == paths,
        books.enqueued(id, paths).retry_error(id, true) is None,
        (BooksState { retries: books.retries.remove(id), ..books }).retry_error(id, connected)
            is Some,
{
}

/// One event of a run, with what it is looked at with.
pub struct RunInput {
    pub event: SendEvent,
    pub gate: Option<Seq<char>>,
    pub fresh: Seq<char>,
    pub now: u64,
}

/// How far a batch has come after several events.
pub open spec fn run_after(r: RunState, inputs: Seq<RunInput>) -> RunState
    decreases inputs.len(),
{
    if inputs.len() == 0 {
        r
    } else {
        let i = inputs.last();
        run_after(r, inputs.drop_last()).after(i.event, i.gate, i.fresh, i.now).0
    }
}

/// What was to be done after each of several events.
pub open spec fn run_steps(r: RunState, inputs: Seq<RunInput>) -> Seq<StepView>
    decreases inputs.len(),
{
    if inputs.len() == 0 {
        Seq::empty()
    } else {
        let i = inputs.last();
        run_steps(r, inputs.drop_last()).push(
            run_after(r, inputs.drop_last()).after(i.event, i.gate, i.fresh, i.now).1,
        )
    }
}

/// Whether each event can come of the step before it.
pub open spec fn run_expects(r: RunState, inputs: Seq<RunInput>) -> bool
    decreases inputs.len(),
{
    inputs.len() > 0 ==> {
        &&& run_expects(r, inputs.drop_last())
        &&& run_after(r, inputs.drop_last()).expects(inputs.last().event)
    }
}

/// The files that were announced, with the transfer, the path and the size of each.
pub open spec fn announced_files(steps: Seq<StepView>) -> Seq<(Seq<char>, Seq<char>, u64)>
    decreases steps.len(),
{
    if steps.len() == 0 {
        Seq::empty()
    } else {
        let before = announced_files(steps.drop_last());
        match steps.last() {
            StepView::Transmit {
                payload: OutgoingView::FileStart { id, path, size, .. },
                ..
            } => before.push((id, path, size)),
            _ => before,
        }
    }
}

/// The files that were opened.
pub open spec fn opened_files(steps: Seq<StepView>) -> Seq<u64>
    decreases steps.len(),
{
    if steps.len() == 0 {
        Seq::empty()
    } else {
        let before = opened_files(steps.drop_last());
        match steps.last() {
            StepView::Open { handle, .. } => before.push(handle),
            _ => before,
        }
    }
}

/// The folders that were announced.
pub open spec fn announced_folders(steps: Seq<StepView>) -> Seq<Seq<char>>
    decreases steps.len(),
{
    if steps.len() == 0 {
        Seq::empty()
    } else {
        let before = announced_folders(steps.drop_last());
        match steps.last() {
            StepView::Transmit { payload: OutgoingView::Directory { path, .. }, .. } => before.push(
                path,
            ),
            _ => before,
        }
    }
}

/// Over a whole run, from the announcement of a batch on: the folders are announced in
/// the order of the plan, then the files in the order of the plan, each with its own path
/// and size; and what is opened for the contents of the k-th file is the source of that
/// very file of the plan. The batch ends only after all of them.
pub proof fn law_each_file_is_sent_with_its_own_contents(r: RunState, inputs: Seq<RunInput>)
    requires
        r.phase == Phase::AnnounceSent,
        r.directories_sent == 0,
        r.files_begun == 0,
        run_expects(r, inputs),
    ensures
        ({
            let steps = run_steps(r, inputs);
            let starts = announced_files(steps);
            let opens = opened_files(steps);
            let folders = announced_folders(steps);
            &&& starts.len() <= r.files.len()
            &&& starts.len() - 1 <= opens.len() <= starts.len()
            &&& folders.len() <= r.directories.len()
            &&& forall|k: int|
                0 <= k < starts.len() ==> (#[trigger] starts[k]).1 == r.files[k].relative
                    && starts[k].2 == r.files[k].size
            &&& forall|k: int| 0 <= k < opens.len() ==> #[trigger] opens[k] == r.files[k].handle
            &&& forall|k: int|
                0 <= k < folders.len() ==> #[trigger] folders[k] == r.directories[k]
            &&& starts.len() > 0 ==> folders.len() == r.directories.len()
            &&& steps.len() > 0 && steps.last() is Finished ==> folders.len() == r.directories.len()
                && starts.len() == r.files.len() && opens.len() == r.files.len()
        }),
{
    lemma_run(r, inputs);
}

/// What a run keeps to.
spec fn run_kept(r: RunState, inputs: Seq<RunInput>) -> bool {
    let s = run_after(r, inputs);
    let steps = run_steps(r, inputs);
    let starts = announced_files(steps);
    let opens = opened_files(steps);
    let folders = announced_folders(steps);
    &&& s.files == r.files
    &&& s.directories == r.directories
    &&& s.id == r.id
    &&& s.title == r.title
    &&& s.total_files == r.total_files
    &&& s.total_bytes == r.total_bytes
    &&& s.files_begun == starts.len() <= r.files.len()
    &&& s.directories_sent == folders.len() <= r.directories.len()
    &&& starts.len() - 1 <= opens.len() <= starts.len()
    &&& (s.phase == Phase::StartSent || s.phase == Phase::StartWait) ==> opens.len() == starts.len()
        - 1 && starts.len() > 0
    &&& (s.phase != Phase::StartSent && s.phase != Phase::StartWait && s.phase != Phase::Over)
        ==> opens.len() == starts.len()
    &&& forall|k: int|
        0 <= k < starts.len() ==> (#[trigger] starts[k]).1 == r.files[k].relative && starts[k].2
            == r.files[k].size
    &&& forall|k: int| 0 <= k < opens.len() ==> #[trigger] opens[k] == r.files[k].handle
    &&& forall|k: int| 0 <= k < folders.len() ==> #[trigger] folders[k] == r.directories[k]
    &&& starts.len() > 0 ==> folders.len() == r.directories.len()
    &&& starts.len() > 0 && s.phase != Phase::Over ==> s.file_id == starts.last().0
    &&& s.phase == Phase::Opening || s.phase == Phase::Reading || s.phase == Phase::ChunkSent
        || s.phase == Phase::EndSent || s.phase == Phase::EndWait ==> starts.len() > 0
    &&& (s.phase == Phase::BatchEndSent || s.phase == Phase::BatchEndWait) ==> folders.len()
        == r.directories.len() && starts.len() == r.files.len()
    &&& steps.len() > 0 && steps.last() is Finished ==> folders.len() == r.directories.len()
        && starts.len() == r.files.len() && opens.len() == r.files.len()
}

proof fn lemma_run(r: RunState, inputs: Seq<RunInput>)
    requires
        r.phase == Phase::AnnounceSent,
        r.directories_sent == 0,
        r.files_begun == 0,
        run_expects(r, inputs),
    ensures
        run_kept(r, inputs),
    decreases inputs.len(),
{
    if inputs.len() > 0 {
        let before = inputs.drop_last();
        lemma_run(r, before);
        let steps = run_steps(r, inputs);
        assert(steps.drop_last() =~= run_steps(r, before));
    }
}

/// A file that was announced is confirmed, opened, read and ended under one and the same
/// transfer: its wait, its pieces and its end carry the identifier of its announcement.
pub proof fn law_one_transfer_for_one_file(
    r: RunState,
    inputs: Seq<RunInput>,
    event: SendEvent,
    gate: Option<Seq<char>>,
    fresh: Seq<char>,
    now: u64,
)
    requires
        r.phase == Phase::AnnounceSent,
        r.directories_sent == 0,
        r.files_begun == 0,
        run_expects(r, inputs),
        run_after(r, inputs).expects(event),
    ensures
        ({
            let starts = announced_files(run_steps(r, inputs));
            let s = run_after(r, inputs);
            match s.after(event, gate, fresh, now).1 {
                StepView::Transmit { payload: OutgoingView::Chunk { id, .. }, wait } => wait is None
                    && starts.len() > 0 && id == starts.last().0,
                StepView::Transmit { payload: OutgoingView::FileEnd { id, .. }, wait } => wait
                    is None && starts.len() > 0 && id == starts.last().0,
                StepView::Transmit { payload: OutgoingView::FileStart { id, batch, .. }, wait } => {
                    id == fresh && batch == r.id && wait == Some(fresh)
                },
                StepView::Transmit { payload: OutgoingView::Directory { batch, .. }, wait } => batch
                    == r.id && wait is None,
                StepView::Transmit { payload: OutgoingView::BatchEnd { id }, wait } => id == r.id
                    && wait == Some(r.id),
                StepView::Open { wait, .. } => starts.len() > 0 && wait == starts.last().0,
                StepView::Await { waiter } => if s.phase == Phase::StartSent || s.phase
                    == Phase::EndSent {
                    starts.len() > 0 && waiter == starts.last().0
                } else {
                    waiter == r.id
                },
                _ => true,
            }
        }),
{
    lemma_run(r, inputs);
}

/// After a piece was read and is on its way, the progress grows by just its bytes, its
/// number by one, and the next piece is asked for.
pub proof fn law_progress_counts_the_bytes_sent(
    r: RunState,
    data: Vec<u8>,
    now: u64,
)
    requires
        r.phase == Phase::Reading,
        data@.len() > 0,
        data@.len() <= CHUNK_SIZE,
        r.content.len() + data@.len() < SHA256_LIMIT,
        r.transferred + data@.len() <= u64::MAX,
        r.seq < u32::MAX,
    ensures
        ({
            let read = r.after(SendEvent::Data(data), None, Seq::empty(), now);
            let sent = read.0.after(SendEvent::Sent, None, Seq::empty(), now);
            &&& read.1 == (StepView::Transmit {
                payload: OutgoingView::Chunk { id: r.file_id, seq: r.seq, data: data@ },
                wait: None,
            })
            &&& sent.0.transferred == r.transferred + data@.len()
            &&& sent.0.seq == r.seq + 1
            &&& sent.0.content == r.content + data@
            &&& sent.1 is Read
            &&& sent.0.files_done == r.files_done && sent.0.files_begun == r.files_begun
            &&& r.last_emit is None ==> (sent.2 matches Some(u) && u.id == r.id && u.direction
                == Direction::Send && u.name == r.title && u.status == Status::Transferring
                && u.transferred == r.transferred + data@.len() && u.total == r.total_bytes
                && u.files_done == r.files_done && u.files_total == r.total_files && u.error is None
                && u.path is None)
            &&& (r.last_emit matches Some(t) && now - t < 100_000_000) ==> sent.2 is None
            &&& (r.last_emit matches Some(t) && now - t >= 100_000_000) ==> sent.2 is Some
        }),
{
}

/// A confirmed file counts as done, once; a batch that is confirmed is reported with all
/// of its files and bytes.
pub proof fn law_confirmed_files_are_counted(r: RunState, fresh: Seq<char>, now: u64)
    requires
        r.files_done < u32::MAX,
    ensures
        r.phase == Phase::EndWait ==> {
            let a = r.after(SendEvent::Confirmed, None, fresh, now);
            &&& a.0.files_done == r.files_done + 1
            &&& a.2 matches Some(u) && u.files_done == r.files_done + 1 && u.transferred
                == r.transferred && u.status == Status::Transferring
        },
        r.phase == Phase::BatchEndWait ==> {
            let a = r.after(SendEvent::Confirmed, None, fresh, now);
            &&& a.1 is Finished && a.0.phase == Phase::Over
            &&& a.2 matches Some(u) && u.id == r.id && u.status == Status::Completed
                && u.transferred == r.total_bytes && u.total == r.total_bytes && u.files_done
                == r.total_files && u.files_total == r.total_files
        },
{
}

/// Whatever goes wrong is the reason for the end of the batch, and after that nothing is
/// expected any more.
pub proof fn law_failures_end_the_batch(
    r: RunState,
    why: String,
    later: SendEvent,
    gate: Option<Seq<char>>,
    fresh: Seq<char>,
    now: u64,
)
    ensures
        ({
            let a = r.after(SendEvent::Failed(why), gate, fresh, now);
            &&& a.1 == StepView::Failed(why@)
            &&& !a.0.expects(later)
            &&& a.2 is None
        }),
{
}

/// What an answer of the peer says: it concerns the transfer or batch that it names, and
/// where it is not well the reason is the peer's own, if it gives one.
pub proof fn law_answers_say_whom_and_what(
    id: String,
    ok: bool,
    error: Option<String>,
    drop_at_cursor: bool,
)
    ensures
        forall|p: Payload|
            p == (Payload::FileReady { id, ok, error }) || p == (Payload::FileResult {
                id,
                ok,
                error,
            }) || p == (Payload::FileBatchReady { id, ok, error }) || p == (
            Payload::FileBatchResult { id, ok, error, drop_at_cursor }) ==> (
            #[trigger] confirmation(p) matches Some(c) && c.0 == id@ && (ok ==> c.1 is Ok) && (!ok
                ==> match error {
                Some(e) => c.1 == Err::<(), Seq<char>>(e@),
                None => c.1 == Err::<(), Seq<char>>("对端接收失败"@),
            })),
{
}

/// What is sent again is what was asked for before: the same paths under the new
/// identifier, and nothing under the old one.
pub proof fn law_retry_sends_the_same_again<P>(
    books: BooksState<P>,
    id: Seq<char>,
    new_id: Seq<char>,
    other: Seq<char>,
)
    requires
        books.retries.contains_key(id),
        new_id != id,
    ensures
        ({
            let after = books.retried(id, new_id);
            &&& after.retries.contains_key(new_id) && after.retries[new_id] == books.retries[id]
            &&& !after.retries.contains_key(id)
            &&& other != id && other != new_id ==> after.retries.contains_key(other)
                == books.retries.contains_key(other)
            &&& other != id && other != new_id && books.retries.contains_key(other)
                ==> after.retries[other] == books.retries[other]
            &&& after.cancelled == books.cancelled && after.waiters == books.waiters
                && after.pending_drags == books.pending_drags && after.clipboard_batch
                == books.clipboard_batch
        }),
{
}

/// Nothing is sent without files or without a connection, a batch goes on exactly as long
/// as it is neither cancelled nor cut off, and a confirmation is waited for during 120 s.
pub proof fn law_when_to_refuse_and_when_to_stop<P>(
    books: BooksState<P>,
    id: Seq<char>,
    count: nat,
    connected: bool,
    cancelled: bool,
    began: u64,
    now: u64,
)
    ensures
        send_error(count, connected) is None <==> count > 0 && connected,
        stop_reason(cancelled, connected) is None <==> !cancelled && connected,
        cancelled ==> stop_reason(cancelled, connected) == Some("传输已取消"@),
        books.retry_error(id, connected) is None <==> books.retries.contains_key(id) && connected,
        wait_error(id, None, began, now) is None <==> now - began < 120_000_000_000,
        stop_reason(cancelled, connected) is Some ==> wait_error(
            id,
            stop_reason(cancelled, connected),
            began,
            now,
        ) == stop_reason(cancelled, connected),
{
}

/// A batch is announced with its roots, the number of its files and of their bytes, and
/// what it is part of. It then goes through its folders and files in their order, from
/// the first, with nothing sent or done so far.
pub proof fn law_batches_begin_as_announced(
    id: Seq<char>,
    plan: SendPlan,
    drop_at_cursor: bool,
    drag_id: Option<Seq<char>>,
    clipboard_id: Option<Seq<char>>,
)
    requires
        plan.files@.len() <= u32::MAX,
    ensures
        ({
            let r = RunState::started(id, plan);
            &&& r.id == id
            &&& r.phase == Phase::AnnounceSent
            &&& r.directories_sent == 0 && r.files_begun == 0 && r.files_done == 0
            &&& r.transferred == 0 && r.in_flight == 0
            &&& r.total_files == plan.files@.len()
            &&& r.total_bytes == plan.total_bytes
            &&& r.directories.len() == plan.directories@.len()
            &&& forall|i: int|
                0 <= i < r.directories.len() ==> #[trigger] r.directories[i]
                    == plan.directories@[i]@
            &&& r.files.len() == plan.files@.len()
            &&& forall|i: int|
                0 <= i < r.files.len() ==> (#[trigger] r.files[i]).handle == plan.files@[i].handle
                    && r.files[i].relative == plan.files@[i].relative@ && r.files[i].size
                    == plan.files@[i].size
        }),
        RunState::announcement(id, plan, drop_at_cursor, drag_id, clipboard_id) matches
            StepView::Transmit { payload, wait } && wait == Some(id) && (payload matches
            OutgoingView::BatchStart {
            id: i,
            roots,
            total_files,
            total_bytes,
            drop_at_cursor: d,
            drag_id: g,
            clipboard_id: c,
        } && i == id && roots == plan.roots@ && total_files == plan.files@.len() && total_bytes
            == plan.total_bytes && d == drop_at_cursor && g == drag_id && c == clipboard_id),
{
}

/// What is sent, waited for, opened or read is what the step says.
pub proof fn law_steps_mean_what_they_say(step: SendStep, v: StepView)
    requires
        step.shows(v),
    ensures
        v matches StepView::Await { waiter } ==> (step matches SendStep::Await { waiter: w } && w@
            == waiter),
        v matches StepView::Open { handle, wait } ==> (step matches SendStep::Open {
            handle: h,
            wait: w,
        } && h == handle && w@ == wait),
        v matches StepView::Read { limit } ==> (step matches SendStep::Read { limit: n } && n
            == limit),
        v is Finished ==> step is Finished,
        v matches StepView::Failed(e) ==> (step matches SendStep::Failed(t) && t@ == e),
        v matches StepView::Transmit { payload, wait } ==> (step matches SendStep::Transmit {
            payload: p,
            wait: w,
        } && is_outgoing(p, payload) && (w is Some <==> wait is Some) && (w matches Some(t) ==> wait
            == Some(t@))),
{
}

/// What goes to the peer carries what it should: a folder or file its path and batch, a
/// piece its number and bytes, an end its digest.
pub proof fn law_messages_carry_what_they_should(p: Payload, v: OutgoingView)
    requires
        is_outgoing(p, v),
    ensures
        v matches OutgoingView::BatchStart {
            id,
            roots,
            total_files,
            total_bytes,
            drop_at_cursor,
            drag_id,
            clipboard_id,
        } ==> (p matches Payload::FileBatchStart {
            id: i,
            roots: r,
            total_files: f,
            total_bytes: b,
            drop_at_cursor: d,
            drag_id: g,
            clipboard_id: c,
        } && i@ == id && r@ == roots && f == total_files && b == total_bytes && d == drop_at_cursor
            && (g matches Some(t) ==> drag_id == Some(t@)) && (g is None ==> drag_id is None) && (
        c matches Some(t) ==> clipboard_id == Some(t@)) && (c is None ==> clipboard_id is None)),
        v matches OutgoingView::Directory { batch, path } ==> (p matches Payload::FileDirectory {
            batch_id: b,
            path: q,
        } && b@ == batch && q@ == path),
        v matches OutgoingView::FileStart { id, batch, path, size } ==> (p matches
            Payload::FileStart { id: i, batch_id: b, path: q, size: n } && i@ == id && b@ == batch
            && q@ == path && n == size),
        v matches OutgoingView::Chunk { id, seq, data } ==> (p matches Payload::FileChunk {
            id: i,
            seq: n,
            data: d,
        } && i@ == id && n == seq && d@ == data),
        v matches OutgoingView::FileEnd { id, sha256 } ==> (p matches Payload::FileEnd {
            id: i,
            sha256: h,
        } && i@ == id && h@ == sha256),
        v matches OutgoingView::BatchEnd { id } ==> (p matches Payload::FileBatchEnd { id: i } && i@
            == id),
{
}

/// A batch that was accepted carries its identifier and what it is part of, and the user
/// sees that it is being prepared.
pub proof fn law_accepted_batches_are_reported(
    q: Enqueued,
    id: Seq<char>,
    drop_at_cursor: bool,
    drag_id: Option<Seq<char>>,
    clipboard_id: Option<Seq<char>>,
)
    requires
        q.is_for(id, drop_at_cursor, drag_id, clipboard_id),
    ensures
        q.id@ == id,
        q.drop_at_cursor == drop_at_cursor,
        q.drag_id matches Some(t) ==> drag_id == Some(t@),
        q.drag_id is None ==> drag_id is None,
        q.clipboard_id matches Some(t) ==> clipboard_id == Some(t@),
        q.clipboard_id is None ==> clipboard_id is None,
        q.update.id@ == id,
        q.update.status == Status::Preparing,
        q.update.direction == Direction::Send,
        q.update.transferred == 0 && q.update.total == 0,
        q.update.files_done == 0 && q.update.files_total == 0,
        q.update.error is None,
{
}

/// What is dragged is remembered under its identifier until the drag is over, and what is
/// then sent is what was dragged. Other drags stay.
pub proof fn law_drags_are_remembered<P>(
    books: BooksState<P>,
    id: Seq<char>,
    paths: Seq<P>,
    batch: Seq<char>,
    other: Seq<char>,
)
    requires
        other != id,
    ensures
        ({
            let dragged = books.with_drag(id, paths);
            let sent = dragged.without_drag(id).enqueued(batch, dragged.pending_drags[id]);
            &&& dragged.pending_drags.contains_key(id) && dragged.pending_drags[id] == paths
            &&& sent.retries.contains_key(batch) && sent.retries[batch] == paths
            &&& !sent.pending_drags.contains_key(id)
            &&& sent.pending_drags.contains_key(other) == books.pending_drags.contains_key(other)
            &&& books.pending_drags.contains_key(other) ==> sent.pending_drags[other]
                == books.pending_drags[other]
            &&& sent.cancelled == books.cancelled && sent.waiters == books.waiters
                && sent.clipboard_batch == books.clipboard_batch
        }),
{
}

/// An answer is taken once, by whoever waits for it: it concerns the one that it names, if
/// that one waits, and from then on that one waits no longer. Others go on waiting.
pub proof fn law_answers_are_taken_once<P>(
    books: BooksState<P>,
    p: Payload,
    id: Seq<char>,
    other: Seq<char>,
)
    requires
        confirmation(p) matches Some(c) && c.0 == id,
        other != id,
    ensures
        books.waiters.contains(id) ==> books.concerns(p) == confirmation(p),
        !books.waiters.contains(id) ==> books.concerns(p) is None,
        books.answered(p).concerns(p) is None,
        books.answered(p).waiters.contains(other) == books.waiters.contains(other),
        books.answered(p).retries == books.retries,
        books.answered(p).cancelled == books.cancelled,
{
}

/// A batch that went well cannot be tried again; one that did not can, and the user sees
/// whether it was cancelled or failed, and why. Neither counts as cancelled any more.
pub proof fn law_how_batches_end<P>(
    books: BooksState<P>,
    id: Seq<char>,
    error: Seq<char>,
    other: Seq<char>,
)
    requires
        other != id,
    ensures
        !books.ended(id, true).retries.contains_key(id),
        books.ended(id, false).retries == books.retries,
        !books.ended(id, true).cancelled.contains(id),
        !books.ended(id, false).cancelled.contains(id),
        books.ended(id, true).retries.contains_key(other) == books.retries.contains_key(other),
        books.ended(id, true).cancelled.contains(other) == books.cancelled.contains(other),
        books.ended(id, false).cancelled.contains(other) == books.cancelled.contains(other),
        end_report(id, error).id == id,
        end_report(id, error).error == Some(error),
        end_report(id, error).direction == Direction::Send,
        error == "传输已取消"@ ==> end_report(id, error).status == Status::Cancelled,
        error != "传输已取消"@ ==> end_report(id, error).status == Status::Failed,
{
}

/// What is said where nothing can be sent, where a batch must stop, and where the peer
/// does not answer.
pub proof fn law_what_is_said_of_refusals<P>(
    books: BooksState<P>,
    id: Seq<char>,
    count: nat,
    connected: bool,
    began: u64,
    now: u64,
)
    ensures
        send_error(0, connected) == Some("没有选择文件或文件夹"@),
        count > 0 ==> send_error(count, false) == Some("对端未连接，无法发送"@),
        stop_reason(false, false) == Some("网络连接已断开"@),
        !books.retries.contains_key(id) ==> books.retry_error(id, connected) == Some(
            "找不到可重试的传输任务"@,
        ),
        books.retries.contains_key(id) ==> books.retry_error(id, false) == Some(
            "对端未连接，无法发送"@,
        ),
        now >= began + 120_000_000_000 ==> wait_error(id, None, began, now) == Some(
            "等待对端确认超时: "@ + id,
        ),
{
}

/// A file is read and sent in pieces of 256 KiB at most, and the progress is reported at
/// most ten times a second.
pub proof fn law_sizes_and_times_of_a_batch()
    ensures
        CHUNK_SIZE == 256 * 1024,
        10 * REPORT_INTERVAL == 1_000_000_000,
        RESULT_TIMEOUT == 120 * 1_000_000_000,
{
}

/// What comes next once a batch, a folder or a file is done with: the next folder, then
/// the next file, and behind the last the end of the batch. A file begins anew, under its
/// own identifier, with nothing read and its pieces counted from zero. A reason to stop
/// stops the batch before a folder or a file.
pub proof fn law_what_comes_next(
    r: RunState,
    event: SendEvent,
    gate: Option<Seq<char>>,
    fresh: Seq<char>,
    now: u64,
)
    requires
        (event is Confirmed && (r.phase == Phase::AnnounceWait || r.phase == Phase::EndWait)) || (
        event is Sent && r.phase == Phase::DirectorySent),
    ensures
        ({
            let a = r.after(event, gate, fresh, now);
            let folder = r.directories_sent < r.directories.len();
            let file = !folder && r.files_begun < r.files.len();
            &&& gate is Some && (folder || file) ==> a.1 == StepView::Failed(gate->Some_0)
                && a.0.phase == Phase::Over
            &&& gate is None && folder ==> {
                &&& a.1 == (StepView::Transmit {
                    payload: OutgoingView::Directory {
                        batch: r.id,
                        path: r.directories[r.directories_sent as int],
                    },
                    wait: None,
                })
                &&& a.0.phase == Phase::DirectorySent
                &&& a.0.directories_sent == r.directories_sent + 1
                &&& a.0.files_begun == r.files_begun
            }
            &&& gate is None && file ==> {
                &&& a.1 == (StepView::Transmit {
                    payload: OutgoingView::FileStart {
                        id: fresh,
                        batch: r.id,
                        path: r.files[r.files_begun as int].relative,
                        size: r.files[r.files_begun as int].size,
                    },
                    wait: Some(fresh),
                })
                &&& a.0.phase == Phase::StartSent
                &&& a.0.files_begun == r.files_begun + 1
                &&& a.0.directories_sent == r.directories_sent
                &&& a.0.file_id == fresh
                &&& a.0.content.len() == 0
                &&& a.0.seq == 0
                &&& a.0.last_emit is None
            }
            &&& !folder && !file ==> {
                &&& a.1 == (StepView::Transmit {
                    payload: OutgoingView::BatchEnd { id: r.id },
                    wait: Some(r.id),
                })
                &&& a.0.phase == Phase::BatchEndSent
            }
            &&& a.0.id == r.id && a.0.transferred == r.transferred && a.0.total_bytes
                == r.total_bytes && a.0.total_files == r.total_files && a.0.files == r.files
                && a.0.directories == r.directories
        }),
{
}

/// What follows what was sent, confirmed or opened: the confirmation that belongs to it is
/// waited for, a confirmed file is opened, and an open one is read.
pub proof fn law_what_follows_each_step(
    r: RunState,
    gate: Option<Seq<char>>,
    fresh: Seq<char>,
    now: u64,
)
    ensures
        r.phase == Phase::AnnounceSent ==> {
            let a = r.after(SendEvent::Sent, gate, fresh, now);
            a.1 == (StepView::Await { waiter: r.id }) && a.0 == (RunState {
                phase: Phase::AnnounceWait,
                ..r
            }) && a.2 is None
        },
        r.phase == Phase::StartSent ==> {
            let a = r.after(SendEvent::Sent, gate, fresh, now);
            a.1 == (StepView::Await { waiter: r.file_id }) && a.0 == (RunState {
                phase: Phase::StartWait,
                ..r
            }) && a.2 is None
        },
        r.phase == Phase::EndSent ==> {
            let a = r.after(SendEvent::Sent, gate, fresh, now);
            a.1 == (StepView::Await { waiter: r.file_id }) && a.0 == (RunState {
                phase: Phase::EndWait,
                ..r
            }) && a.2 is None
        },
        r.phase == Phase::BatchEndSent ==> {
            let a = r.after(SendEvent::Sent, gate, fresh, now);
            a.1 == (StepView::Await { waiter: r.id }) && a.0 == (RunState {
                phase: Phase::BatchEndWait,
                ..r
            }) && a.2 is None
        },
        r.phase == Phase::StartWait ==> {
            let a = r.after(SendEvent::Confirmed, gate, fresh, now);
            a.1 == (StepView::Open {
                handle: r.files[r.files_begun - 1].handle,
                wait: r.file_id,
            }) && a.0 == (RunState { phase: Phase::Opening, ..r }) && a.2 is None
        },
        r.phase == Phase::Opening && gate is None ==> {
            let a = r.after(SendEvent::Opened, gate, fresh, now);
            a.1 == (StepView::Read { limit: 0x4_0000 }) && a.0 == (RunState {
                phase: Phase::Reading,
                ..r
            }) && a.2 is None
        },
{
}

/// What follows a piece that was read: a piece is sent with the number that is due, and an
/// empty one ends the file with the digest of all that was read. A file that is too long
/// to have a digest ends the batch.
pub proof fn law_what_follows_a_piece(
    r: RunState,
    data: Vec<u8>,
    gate: Option<Seq<char>>,
    fresh: Seq<char>,
    now: u64,
)
    ensures
        ({
            let a = r.after(SendEvent::Data(data), gate, fresh, now);
            &&& data@.len() == 0 && r.content.len() < SHA256_LIMIT ==> {
                &&& a.1 == (StepView::Transmit {
                    payload: OutgoingView::FileEnd {
                        id: r.file_id,
                        sha256: digest_text(r.content)->Some_0,
                    },
                    wait: None,
                })
                &&& a.0.phase == Phase::EndSent
            }
            &&& data@.len() > 0 && r.content.len() + data@.len() < SHA256_LIMIT ==> {
                &&& a.1 == (StepView::Transmit {
                    payload: OutgoingView::Chunk { id: r.file_id, seq: r.seq, data: data@ },
                    wait: None,
                })
                &&& a.0.phase == Phase::ChunkSent
                &&& a.0.content == r.content + data@
                &&& a.0.in_flight == data@.len() as u64
            }
            &&& data@.len() > 0 && r.content.len() + data@.len() >= SHA256_LIMIT ==> a.1
                == StepView::Failed("文件过大，无法校验"@) && a.0.phase == Phase::Over
            &&& a.2 is None
            &&& a.0.file_id == r.file_id && a.0.transferred == r.transferred && a.0.files_begun
                == r.files_begun
        }),
{
}

} // verus!
