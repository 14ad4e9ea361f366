//! The receiving side of a transfer.
//!
//! `FileReceiver` decides; the application creates, writes, renames and deletes.
//! `handle` looks at a message and either is done with it or says which disk
//! operation is due; the method named with that operation takes its result.

use vstd::prelude::*;

use crate::file_transfer::digest::{digest_text, FileDigest, SHA256_LIMIT};
use crate::file_transfer::names::{
    law_accepted_names_stay_inside, leads_out, path_names, plain_name, safe_relative_components,
    safe_single_name, single_name, PathStyle, BATCH_PATHS,
};
use crate::file_transfer::update::{
    effect_views, Direction, Effect, EffectView, Status, TransferUpdate, UpdateView,
};
use crate::protocol::{Payload, TransferRoot};
use crate::table::Table;
use crate::text::{
    copy_opt, copy_texts, decimal, decimal_text, joined, opt_text, same_text, texts,
};

verus! {

/// How often the progress of a batch is reported at most: every 100 ms.
pub const PROGRESS_INTERVAL: u64 = 100_000_000;

/// A file that is being received.
pub struct ReceiveFile {
    batch_id: String,
    expected: u64,
    written: u64,
    next_seq: u32,
    digest: FileDigest,
    temp: String,
    target: String,
}

/// A batch that is being received.
pub struct ReceiveBatch {
    title: String,
    roots: Table<String>,
    root_paths: Vec<String>,
    expected_files: u32,
    completed_files: u32,
    total_bytes: u64,
    received_bytes: u64,
    failed: Option<String>,
    last_emit: Option<u64>,
    last_activity: u64,
    drop_at_cursor: bool,
    drag_id: Option<String>,
    clipboard_id: Option<String>,
    stage: Option<String>,
}

/// A file that is being received: to which batch it belongs, how long it will
/// be, what has arrived, which piece comes next, and where it is written and
/// where it will end up.
pub struct FileState {
    pub batch: Seq<char>,
    pub expected: u64,
    pub content: Seq<u8>,
    pub next_seq: u32,
    pub temp: Seq<char>,
    pub target: Seq<char>,
}

/// A batch that is being received.
pub struct BatchState {
    pub title: Seq<char>,
    /// Where each root was created.
    pub roots: Map<Seq<char>, Seq<char>>,
    pub root_paths: Seq<Seq<char>>,
    pub expected_files: u32,
    pub completed_files: u32,
    pub total_bytes: u64,
    pub received_bytes: u64,
    /// The first thing that went wrong.
    pub failed: Option<Seq<char>>,
    pub last_emit: Option<u64>,
    pub last_activity: u64,
    pub drop_at_cursor: bool,
    pub drag_id: Option<Seq<char>>,
    pub clipboard_id: Option<Seq<char>>,
    /// The folder that was made for a drag.
    pub stage: Option<Seq<char>>,
}

/// Everything that is being received.
pub struct ReceiverState {
    /// How this system reads paths.
    pub style: PathStyle,
    pub files: Map<Seq<char>, FileState>,
    pub batches: Map<Seq<char>, BatchState>,
    /// The clipboard revision that may own the clipboard.
    pub revision: Option<Seq<char>>,
}

impl View for ReceiveFile {
    type V = FileState;

    closed spec fn view(&self) -> FileState {
        FileState {
            batch: self.batch_id@,
            expected: self.expected,
            content: self.digest@,
            next_seq: self.next_seq,
            temp: self.temp@,
            target: self.target@,
        }
    }
}

impl View for ReceiveBatch {
    type V = BatchState;

    closed spec fn view(&self) -> BatchState {
        BatchState {
            title: self.title@,
            roots: self.roots@.map_values(|s: String| s@),
            root_paths: texts(self.root_paths@),
            expected_files: self.expected_files,
            completed_files: self.completed_files,
            total_bytes: self.total_bytes,
            received_bytes: self.received_bytes,
            failed: opt_text(self.failed),
            last_emit: self.last_emit,
            last_activity: self.last_activity,
            drop_at_cursor: self.drop_at_cursor,
            drag_id: opt_text(self.drag_id),
            clipboard_id: opt_text(self.clipboard_id),
            stage: opt_text(self.stage),
        }
    }
}

impl ReceiveFile {
    /// Never more than was announced has arrived, and all of it was digested.
    closed spec fn wf(self) -> bool {
        &&& self.digest.wf()
        &&& self.written == self.digest@.len()
        &&& self.written <= self.expected
    }
}

impl ReceiveBatch {
    closed spec fn wf(self) -> bool {
        self.roots.wf()
    }
}

proof fn lemma_mapped_insert<V, W>(m: Map<Seq<char>, V>, f: spec_fn(V) -> W, k: Seq<char>, v: V)
    ensures
        m.insert(k, v).map_values(f) == m.map_values(f).insert(k, f(v)),
{
    assert(m.insert(k, v).map_values(f) =~= m.map_values(f).insert(k, f(v)));
}

proof fn lemma_mapped_remove<V, W>(m: Map<Seq<char>, V>, f: spec_fn(V) -> W, k: Seq<char>)
    ensures
        m.remove(k).map_values(f) == m.map_values(f).remove(k),
{
    assert(m.remove(k).map_values(f) =~= m.map_values(f).remove(k));
}

/// An answer to the sending side.
pub enum ReplyView {
    BatchReady { id: Seq<char>, error: Option<Seq<char>> },
    FileReady { id: Seq<char>, error: Option<Seq<char>> },
    FileResult { id: Seq<char>, error: Option<Seq<char>> },
    BatchResult { id: Seq<char>, error: Option<Seq<char>>, drop_at_cursor: bool },
}

/// Whether a payload is the given answer. An answer is positive exactly if it
/// names no error.
pub open spec fn is_reply(p: Payload, v: ReplyView) -> bool {
    match (p, v) {
        (Payload::FileBatchReady { id, ok, error }, ReplyView::BatchReady { id: i, error: e }) => id@
            == i && opt_text(error) == e && ok == (e is None),
        (Payload::FileReady { id, ok, error }, ReplyView::FileReady { id: i, error: e }) => id@ == i
            && opt_text(error) == e && ok == (e is None),
        (Payload::FileResult { id, ok, error }, ReplyView::FileResult { id: i, error: e }) => id@
            == i && opt_text(error) == e && ok == (e is None),
        (
            Payload::FileBatchResult { id, ok, error, drop_at_cursor },
            ReplyView::BatchResult { id: i, error: e, drop_at_cursor: d },
        ) => id@ == i && opt_text(error) == e && ok == (e is None) && drop_at_cursor == d,
        _ => false,
    }
}

/// What comes of a message: an answer, and things to be done.
pub struct Outcome {
    pub reply: Option<Payload>,
    pub effects: Vec<Effect>,
}

/// What comes of a message.
pub struct OutcomeView {
    pub reply: Option<ReplyView>,
    pub effects: Seq<EffectView>,
}

impl Outcome {
    /// Whether this is what `v` describes.
    pub open spec fn shows(self, v: OutcomeView) -> bool {
        &&& effect_views(self.effects@) == v.effects
        &&& match v.reply {
            Some(r) => self.reply matches Some(p) && is_reply(p, r),
            None => self.reply is None,
        }
    }
}

pub open spec fn silent() -> OutcomeView {
    OutcomeView { reply: None, effects: Seq::empty() }
}

pub open spec fn answer(r: ReplyView) -> OutcomeView {
    OutcomeView { reply: Some(r), effects: Seq::empty() }
}

/// A report about a batch.
pub open spec fn report(
    id: Seq<char>,
    b: BatchState,
    status: Status,
    error: Option<Seq<char>>,
) -> EffectView {
    EffectView::Update(
        UpdateView {
            id,
            direction: Direction::Receive,
            name: b.title,
            status,
            transferred: b.received_bytes,
            total: b.total_bytes,
            files_done: b.completed_files,
            files_total: b.expected_files,
            error,
            path: None,
        },
    )
}

/// Sums of sizes stay at the largest number once they reach it.
pub open spec fn capped_u64(n: int) -> u64 {
    if n > u64::MAX { u64::MAX } else { n as u64 }
}

pub open spec fn capped_u32(n: int) -> u32 {
    if n > u32::MAX { u32::MAX } else { n as u32 }
}

/// Why a path is not one of the batch, if it is not.
pub open spec fn target_error(s: ReceiverState, batch: Seq<char>, path: Seq<char>) -> Option<
    Seq<char>,
> {
    if leads_out(BATCH_PATHS, path) {
        Some("对端发送了不安全的文件路径"@)
    } else if path_names(BATCH_PATHS, path).len() == 0 {
        Some("文件路径为空"@)
    } else if !s.batches.contains_key(batch) {
        Some("接收批次不存在"@)
    } else if !s.batches[batch].roots.contains_key(path_names(BATCH_PATHS, path)[0]) {
        Some("文件不属于声明的根目录"@)
    } else {
        None
    }
}

/// Why a piece of a file is refused, if it is.
pub open spec fn chunk_error(s: ReceiverState, id: Seq<char>, seq: u32, size: nat) -> Option<
    Seq<char>,
> {
    if !s.files.contains_key(id) {
        Some("文件任务不存在或已失败"@)
    } else if seq != s.files[id].next_seq {
        Some(
            "数据块序号错误，期望 "@ + decimal(s.files[id].next_seq as nat) + "，收到 "@ + decimal(
                seq as nat,
            ),
        )
    } else if s.files[id].content.len() + size > s.files[id].expected {
        Some("收到的数据超过声明大小"@)
    } else {
        None
    }
}

/// Why a file that is said to be complete is not, if it is not.
pub open spec fn file_error(f: FileState, sha256: Seq<char>) -> Option<Seq<char>> {
    if f.content.len() != f.expected {
        Some(
            "文件大小不符：期望 "@ + decimal(f.expected as nat) + "，实际 "@ + decimal(
                f.content.len(),
            ),
        )
    } else if digest_text(f.content) != Some(sha256) {
        Some("文件校验失败，内容不完整"@)
    } else {
        None
    }
}

/// Why a batch that is said to be complete is not, if it is not.
pub open spec fn batch_error(b: BatchState) -> Option<Seq<char>> {
    if b.failed is Some {
        b.failed
    } else if b.completed_files != b.expected_files {
        Some(
            "文件数量不符：期望 "@ + decimal(b.expected_files as nat) + "，完成 "@ + decimal(
                b.completed_files as nat,
            ),
        )
    } else if b.received_bytes != b.total_bytes {
        Some(
            "总大小不符：期望 "@ + decimal(b.total_bytes as nat) + "，收到 "@ + decimal(
                b.received_bytes as nat,
            ),
        )
    } else {
        None
    }
}

/// What becomes of each root of a batch: where it was created, or what went
/// wrong.
pub open spec fn root_result(
    style: PathStyle,
    root: Seq<char>,
    created: Result<String, String>,
) -> Result<Seq<char>, Seq<char>> {
    if single_name(style, root) is None {
        Err("对端发送了不安全的名称: "@ + root)
    } else {
        match created {
            Ok(path) => Ok(path@),
            Err(error) => Err(error@),
        }
    }
}

/// Where the roots were created, in order.
pub open spec fn created_paths(
    style: PathStyle,
    roots: Seq<TransferRoot>,
    created: Seq<Result<String, String>>,
) -> Seq<Seq<char>>
    decreases roots.len(),
{
    if roots.len() == 0 {
        Seq::empty()
    } else {
        let before = created_paths(style, roots.drop_last(), created.drop_last());
        match root_result(style, roots.last().name@, created.last()) {
            Ok(path) => before.push(path),
            Err(_) => before,
        }
    }
}

/// Where each root was created.
pub open spec fn created_roots(
    style: PathStyle,
    roots: Seq<TransferRoot>,
    created: Seq<Result<String, String>>,
) -> Map<Seq<char>, Seq<char>>
    decreases roots.len(),
{
    if roots.len() == 0 {
        Map::empty()
    } else {
        let before = created_roots(style, roots.drop_last(), created.drop_last());
        match root_result(style, roots.last().name@, created.last()) {
            Ok(path) => before.insert(roots.last().name@, path),
            Err(_) => before,
        }
    }
}

/// The last thing that went wrong with a root.
pub open spec fn creation_error(
    style: PathStyle,
    roots: Seq<TransferRoot>,
    created: Seq<Result<String, String>>,
) -> Option<Seq<char>>
    decreases roots.len(),
{
    if roots.len() == 0 {
        None
    } else {
        match root_result(style, roots.last().name@, created.last()) {
            Ok(_) => creation_error(style, roots.drop_last(), created.drop_last()),
            Err(error) => Some(error),
        }
    }
}

/// The names of the roots, as one text.
pub open spec fn title_of(roots: Seq<TransferRoot>) -> Seq<char> {
    joined(roots.map_values(|r: TransferRoot| r.name@), "、"@)
}

impl ReceiverState {
    pub open spec fn initial(style: PathStyle) -> Self {
        ReceiverState { style, files: Map::empty(), batches: Map::empty(), revision: None }
    }

    /// Nothing is accepted beyond what was announced.
    pub open spec fn within_limits(self) -> bool {
        forall|id: Seq<char>| #[trigger]
            self.files.contains_key(id) ==> self.files[id].content.len() <= self.files[id].expected
    }

    pub open spec fn with_batch(self, id: Seq<char>, b: BatchState) -> Self {
        ReceiverState { batches: self.batches.insert(id, b), ..self }
    }

    /// The first error of a batch is kept.
    pub open spec fn batch_failed(self, id: Seq<char>, error: Seq<char>) -> Self {
        if self.batches.contains_key(id) && self.batches[id].failed is None {
            self.with_batch(id, BatchState { failed: Some(error), ..self.batches[id] })
        } else {
            self
        }
    }

    /// A batch is still alive.
    pub open spec fn touched(self, id: Seq<char>, now: u64) -> Self {
        if self.batches.contains_key(id) {
            self.with_batch(id, BatchState { last_activity: now, ..self.batches[id] })
        } else {
            self
        }
    }

    /// A file is given up, and with it its batch.
    pub open spec fn file_failed(self, id: Seq<char>, error: Seq<char>) -> Self {
        if self.files.contains_key(id) {
            ReceiverState { files: self.files.remove(id), ..self }.batch_failed(
                self.files[id].batch,
                error,
            )
        } else {
            self
        }
    }

    pub open spec fn file_failed_effects(self, id: Seq<char>) -> Seq<EffectView> {
        if self.files.contains_key(id) {
            seq![EffectView::RemoveFile(self.files[id].temp)]
        } else {
            Seq::empty()
        }
    }

    /// Whether the progress of a batch is reported now.
    pub open spec fn reports(self, id: Seq<char>, force: bool, now: u64) -> bool {
        &&& self.batches.contains_key(id)
        &&& force || (self.batches[id].last_emit matches Some(t) ==> now - t >= PROGRESS_INTERVAL)
    }

    pub open spec fn after_progress(self, id: Seq<char>, force: bool, now: u64) -> Self {
        if self.reports(id, force, now) {
            self.with_batch(id, BatchState { last_emit: Some(now), ..self.batches[id] })
        } else {
            self
        }
    }

    pub open spec fn progress_effects(self, id: Seq<char>, force: bool, now: u64) -> Seq<
        EffectView,
    > {
        if self.reports(id, force, now) {
            seq![report(id, self.batches[id], Status::Transferring, None)]
        } else {
            Seq::empty()
        }
    }
}

/// Receives files.
pub struct FileReceiver {
    style: PathStyle,
    files: Table<ReceiveFile>,
    batches: Table<ReceiveBatch>,
    revision: Option<String>,
}

impl View for FileReceiver {
    type V = ReceiverState;

    closed spec fn view(&self) -> ReceiverState {
        ReceiverState {
            style: self.style,
            files: self.files@.map_values(|f: ReceiveFile| f@),
            batches: self.batches@.map_values(|b: ReceiveBatch| b@),
            revision: opt_text(self.revision),
        }
    }
}

impl FileReceiver {
    pub closed spec fn wf(&self) -> bool {
        &&& self.files.wf()
        &&& self.batches.wf()
        &&& forall|id: Seq<char>| #[trigger] self.files@.contains_key(id) ==> self.files@[id].wf()
        &&& forall|id: Seq<char>| #[trigger]
            self.batches@.contains_key(id) ==> self.batches@[id].wf()
    }

    /// Receives nothing yet, on a system that reads paths in the given style.
    pub fn new(style: PathStyle) -> (r: Self)
        ensures
            r.wf(),
            r@ == ReceiverState::initial(style),
    {
        let r = FileReceiver { style, files: Table::new(), batches: Table::new(), revision: None };
        assert(r@.files =~= Map::<Seq<char>, FileState>::empty());
        assert(r@.batches =~= Map::<Seq<char>, BatchState>::empty());
        r
    }

    /// No more than was announced has arrived of any file.
    pub proof fn law_never_more_than_announced(&self)
        requires
            self.wf(),
        ensures
            self@.within_limits(),
    {
        assert forall|id: Seq<char>| #[trigger]
            self@.files.contains_key(id) implies self@.files[id].content.len()
            <= self@.files[id].expected by {
            assert(self.files@.contains_key(id));
            assert(self.files@[id].wf());
        }
    }

    fn put_batch(&mut self, id: &str, batch: ReceiveBatch)
        requires
            old(self).wf(),
            batch.wf(),
        ensures
            final(self).wf(),
            final(self)@ == old(self)@.with_batch(id@, batch@),
            final(self).files == old(self).files,
    {
        proof {
            lemma_mapped_insert(self.batches@, |b: ReceiveBatch| b@, id@, batch);
        }
        self.batches.insert(id, batch);
    }

    fn take_batch(&mut self, id: &str) -> (r: Option<ReceiveBatch>)
        requires
            old(self).wf(),
        ensures
            final(self).wf(),
            final(self)@ == (ReceiverState { batches: old(self)@.batches.remove(id@), ..old(self)@ }),
            final(self).files == old(self).files,
            r is Some == old(self)@.batches.contains_key(id@),
            r matches Some(b) ==> b.wf() && b@ == old(self)@.batches[id@],
    {
        proof {
            lemma_mapped_remove(self.batches@, |b: ReceiveBatch| b@, id@);
        }
        self.batches.remove(id)
    }

    fn take_file(&mut self, id: &str) -> (r: Option<ReceiveFile>)
        requires
            old(self).wf(),
        ensures
            final(self).wf(),
            final(self)@ == (ReceiverState { files: old(self)@.files.remove(id@), ..old(self)@ }),
            r is Some == old(self)@.files.contains_key(id@),
            r matches Some(f) ==> f.wf() && f@ == old(self)@.files[id@],
    {
        proof {
            lemma_mapped_remove(self.files@, |f: ReceiveFile| f@, id@);
        }
        self.files.remove(id)
    }

    fn put_file(&mut self, id: &str, file: ReceiveFile)
        requires
            old(self).wf(),
            file.wf(),
        ensures
            final(self).wf(),
            final(self)@ == (ReceiverState {
                files: old(self)@.files.insert(id@, file@),
                ..old(self)@
            }),
    {
        proof {
            lemma_mapped_insert(self.files@, |f: ReceiveFile| f@, id@, file);
        }
        self.files.insert(id, file);
    }

    fn mark_batch_failed(&mut self, id: &str, error: &str)
        requires
            old(self).wf(),
        ensures
            final(self).wf(),
            final(self)@ == old(self)@.batch_failed(id@, error@),
    {
        match self.take_batch(id) {
            Some(mut batch) => {
                if batch.failed.is_none() {
                    batch.failed = Some(error.to_owned());
                }
                self.put_batch(id, batch);
                assert(self@.batches =~= old(self)@.batch_failed(id@, error@).batches);
            },
            None => {
                assert(self@.batches =~= old(self)@.batches);
            },
        }
    }

    fn touch_batch(&mut self, id: &str, now: u64)
        requires
            old(self).wf(),
        ensures
            final(self).wf(),
            final(self)@ == old(self)@.touched(id@, now),
    {
        match self.take_batch(id) {
            Some(mut batch) => {
                batch.last_activity = now;
                self.put_batch(id, batch);
                assert(self@.batches =~= old(self)@.touched(id@, now).batches);
            },
            None => {
                assert(self@.batches =~= old(self)@.batches);
            },
        }
    }

    fn fail_file(&mut self, id: &str, error: &str) -> (effects: Vec<Effect>)
        requires
            old(self).wf(),
        ensures
            final(self).wf(),
            final(self)@ == old(self)@.file_failed(id@, error@),
            effect_views(effects@) == old(self)@.file_failed_effects(id@),
    {
        let mut effects: Vec<Effect> = Vec::new();
        match self.take_file(id) {
            Some(file) => {
                self.mark_batch_failed(file.batch_id.as_str(), error);
                effects.push(Effect::RemoveFile(file.temp));
            },
            None => {
                assert(self@.files =~= old(self)@.files);
            },
        }
        assert(effect_views(effects@) =~= old(self)@.file_failed_effects(id@));
        effects
    }

    fn emit_receive_progress(&mut self, id: &str, force: bool, now: u64) -> (effects: Vec<Effect>)
        requires
            old(self).wf(),
        ensures
            final(self).wf(),
            final(self)@ == old(self)@.after_progress(id@, force, now),
            effect_views(effects@) == old(self)@.progress_effects(id@, force, now),
    {
        let mut effects: Vec<Effect> = Vec::new();
        match self.take_batch(id) {
            Some(mut batch) => {
                let due: bool = match batch.last_emit {
                    Some(t) => now >= t && now - t >= PROGRESS_INTERVAL,
                    None => true,
                };
                if force || due {
                    batch.last_emit = Some(now);
                    effects.push(Effect::Update(batch_update(id, &batch, Status::Transferring, None)));
                }
                self.put_batch(id, batch);
                assert(self@.batches =~= old(self)@.after_progress(id@, force, now).batches);
            },
            None => {
                assert(self@.batches =~= old(self)@.batches);
            },
        }
        assert(effect_views(effects@) =~= old(self)@.progress_effects(id@, force, now));
        effects
    }
}

fn batch_update(
    id: &str,
    batch: &ReceiveBatch,
    status: Status,
    error: Option<String>,
) -> (u: TransferUpdate)
    ensures
        EffectView::Update(u@) == report(id@, batch@, status, opt_text(error)),
{
    TransferUpdate {
        id: id.to_owned(),
        direction: Direction::Receive,
        name: batch.title.clone(),
        status,
        transferred: batch.received_bytes,
        total: batch.total_bytes,
        files_done: batch.completed_files,
        files_total: batch.expected_files,
        error,
        path: None,
    }
}

/// What is due after a message was looked at.
pub enum Handling {
    /// The message is none of a file transfer's.
    NotMine,
    /// There is nothing to do on the disk.
    Done(Outcome),
    /// Create the roots of a batch under these names, where they are acceptable;
    /// then call `roots_reserved`.
    Reserve { wanted: Vec<Option<String>> },
    /// Create the folder `names` below `root`; then call `folder_made`.
    MakeFolder { root: String, names: Vec<String> },
    /// Create an unfinished file beside `names` below `root`; then call
    /// `temp_opened`.
    OpenTemp { root: String, names: Vec<String> },
    /// Write the piece; then call `chunk_written`.
    Write,
    /// Move the finished file to its place; then call `file_finished`.
    Finish { batch_id: String, temp: String, target: String },
}

/// What is due after a message was looked at.
pub enum HandlingView {
    NotMine,
    Done(OutcomeView),
    Reserve { wanted: Seq<Option<Seq<char>>> },
    MakeFolder { root: Seq<char>, names: Seq<Seq<char>> },
    OpenTemp { root: Seq<char>, names: Seq<Seq<char>> },
    Write,
    Finish { batch: Seq<char>, temp: Seq<char>, target: Seq<char> },
}

impl Handling {
    /// Whether this is what `v` describes.
    pub open spec fn shows(self, v: HandlingView) -> bool {
        match (self, v) {
            (Handling::NotMine, HandlingView::NotMine) => true,
            (Handling::Done(o), HandlingView::Done(ov)) => o.shows(ov),
            (Handling::Reserve { wanted }, HandlingView::Reserve { wanted: w }) => wanted@.map_values(
                |o: Option<String>| opt_text(o),
            ) == w,
            (
                Handling::MakeFolder { root, names },
                HandlingView::MakeFolder { root: r, names: n },
            ) => root@ == r && texts(names@) == n,
            (Handling::OpenTemp { root, names }, HandlingView::OpenTemp { root: r, names: n }) => root@
                == r && texts(names@) == n,
            (Handling::Write, HandlingView::Write) => true,
            (
                Handling::Finish { batch_id, temp, target },
                HandlingView::Finish { batch: b, temp: t, target: g },
            ) => batch_id@ == b && temp@ == t && target@ == g,
            _ => false,
        }
    }
}

/// The names under which the roots of a batch are to be created.
pub open spec fn wanted_names(style: PathStyle, roots: Seq<TransferRoot>) -> Seq<
    Option<Seq<char>>,
> {
    roots.map_values(|r: TransferRoot| single_name(style, r.name@))
}

impl ReceiverState {
    /// The root below which a path of a batch lies.
    pub open spec fn root_of(self, batch: Seq<char>, path: Seq<char>) -> Seq<char> {
        self.batches[batch].roots[path_names(BATCH_PATHS, path)[0]]
    }

    /// A file is complete, or is given up for `error`.
    pub open spec fn after_finish(
        self,
        batch: Seq<char>,
        error: Option<Seq<char>>,
        now: u64,
    ) -> Self {
        match error {
            Some(e) => self.batch_failed(batch, e),
            None => if self.batches.contains_key(batch) {
                self.with_batch(
                    batch,
                    BatchState {
                        completed_files: capped_u32(self.batches[batch].completed_files + 1),
                        last_activity: now,
                        ..self.batches[batch]
                    },
                )
            } else {
                self
            },
        }
    }

    pub open spec fn finish_effects(
        self,
        batch: Seq<char>,
        temp: Seq<char>,
        error: Option<Seq<char>>,
        now: u64,
    ) -> Seq<EffectView> {
        let removal = if error is Some {
            seq![EffectView::RemoveFile(temp)]
        } else {
            Seq::empty()
        };
        removal + self.after_finish(batch, error, now).progress_effects(batch, true, now)
    }

    /// A batch with the given roots begins.
    pub open spec fn new_batch(
        style: PathStyle,
        roots: Seq<TransferRoot>,
        created: Seq<Result<String, String>>,
        files: u32,
        bytes: u64,
        drop_at_cursor: bool,
        drag_id: Option<Seq<char>>,
        clipboard_id: Option<Seq<char>>,
        stage: Option<Seq<char>>,
        now: u64,
    ) -> BatchState {
        BatchState {
            title: title_of(roots),
            roots: created_roots(style, roots, created),
            root_paths: created_paths(style, roots, created),
            expected_files: files,
            completed_files: 0,
            total_bytes: bytes,
            received_bytes: 0,
            failed: creation_error(style, roots, created),
            last_emit: None,
            last_activity: now,
            drop_at_cursor,
            drag_id,
            clipboard_id,
            stage,
        }
    }
}

/// The removal of the folder that was made for a drag.
pub open spec fn stage_removal(stage: Option<Seq<char>>) -> Seq<EffectView> {
    match stage {
        Some(folder) => seq![EffectView::RemoveFolder(folder)],
        None => Seq::empty(),
    }
}

/// Puts the names of the roots together.
pub fn join_names(roots: &Vec<TransferRoot>) -> (title: String)
    ensures
        title@ == title_of(roots@),
{
    let n: usize = roots.len();
    let mut title = String::new();
    let mut i: usize = 0;
    let ghost names = roots@.map_values(|r: TransferRoot| r.name@);
    assert(names.take(0) =~= Seq::<Seq<char>>::empty());
    while i < n
        invariant
            n == roots@.len(),
            i <= n,
            names == roots@.map_values(|r: TransferRoot| r.name@),
            title@ == joined(names.take(i as int), "、"@),
        decreases n - i,
    {
        proof {
            assert(names.take(i + 1).drop_last() =~= names.take(i as int));
            assert(names.take(i + 1).last() == roots@[i as int].name@);
        }
        if i > 0 {
            title.push_str("、");
        }
        title.push_str(roots[i].name.as_str());
        assert(i == 0 ==> title@ =~= roots@[i as int].name@);
        i += 1;
    }
    assert(names.take(n as int) =~= names);
    title
}

fn counted(before: &str, first: u64, between: &str, second: u64) -> (r: String)
    ensures
        r@ == before@ + decimal(first as nat) + between@ + decimal(second as nat),
{
    let mut r = before.to_owned();
    r.push_str(decimal_text(first).as_str());
    r.push_str(between);
    r.push_str(decimal_text(second).as_str());
    r
}

impl FileReceiver {
    /// Finds where a path of a batch lies on the disk.
    fn resolve_target(&self, batch_id: &str, path: &str) -> (r: Result<(String, Vec<String>), String>)
        requires
            self.wf(),
        ensures
            match r {
                Ok((root, names)) => target_error(self@, batch_id@, path@) is None && root@
                    == self@.root_of(batch_id@, path@) && texts(names@) == path_names(
                    BATCH_PATHS,
                    path@,
                ).skip(1),
                Err(e) => target_error(self@, batch_id@, path@) == Some(e@),
            },
    {
        let components = match safe_relative_components(path) {
            Ok(c) => c,
            Err(e) => return Err(e),
        };
        assert(texts(components@)[0] == components@[0]@);
        let batch: &ReceiveBatch = match self.batches.get(batch_id) {
            Some(b) => b,
            None => return Err("接收批次不存在".to_owned()),
        };
        assert(self.batches@.contains_key(batch_id@));
        let root = match batch.roots.get(components[0].as_str()) {
            Some(r) => r.clone(),
            None => return Err("文件不属于声明的根目录".to_owned()),
        };
        let mut components = components;
        let ghost all = components@;
        let _ = components.remove(0);
        assert(texts(components@) =~= texts(all).skip(1));
        Ok((root, components))
    }

    /// A batch is announced. Nothing is stored before its roots are created.
    fn wanted_roots(style: PathStyle, roots: &Vec<TransferRoot>) -> (wanted: Vec<Option<String>>)
        ensures
            wanted@.map_values(|o: Option<String>| opt_text(o)) == wanted_names(style, roots@),
    {
        let n: usize = roots.len();
        let mut wanted: Vec<Option<String>> = Vec::new();
        let mut i: usize = 0;
        let ghost view = |o: Option<String>| opt_text(o);
        while i < n
            invariant
                n == roots@.len(),
                i <= n,
                view == (|o: Option<String>| opt_text(o)),
                wanted@.map_values(view) == wanted_names(style, roots@).take(i as int),
            decreases n - i,
        {
            let ghost before = wanted@.map_values(view);
            let name = safe_single_name(style, roots[i].name.as_str());
            assert(opt_text(name) == wanted_names(style, roots@)[i as int]);
            wanted.push(name);
            assert(wanted@.map_values(view) =~= before.push(opt_text(name)));
            i += 1;
            assert(wanted@.map_values(view) =~= wanted_names(style, roots@).take(i as int));
        }
        assert(wanted_names(style, roots@).take(n as int) =~= wanted_names(style, roots@));
        wanted
    }

    /// The roots of a batch were created, or not: `created` holds for each root
    /// where it is, or what went wrong; what it says of a root with an
    /// unacceptable name is not looked at. `stage` is the folder that was made for
    /// a drag, or why it could not be made.
    pub fn roots_reserved(
        &mut self,
        id: &str,
        roots: &Vec<TransferRoot>,
        files: u32,
        bytes: u64,
        drop_at_cursor: bool,
        drag_id: Option<String>,
        clipboard_id: Option<String>,
        stage: Result<Option<String>, String>,
        created: &Vec<Result<String, String>>,
        now: u64,
    ) -> (outcome: Outcome)
        requires
            old(self).wf(),
            created@.len() == roots@.len(),
        ensures
            final(self).wf(),
            stage matches Ok(folder) ==> {
                let b = ReceiverState::new_batch(
                    old(self)@.style,
                    roots@,
                    created@,
                    files,
                    bytes,
                    drop_at_cursor,
                    opt_text(drag_id),
                    opt_text(clipboard_id),
                    opt_text(folder),
                    now,
                );
                &&& final(self)@ == old(self)@.reserved(id@, b)
                &&& outcome.shows(old(self)@.reserved_outcome(id@, b))
            },
            match stage {
                Err(e) => final(self)@ == old(self)@ && outcome.shows(
                    answer(ReplyView::BatchReady { id: id@, error: Some(e@) }),
                ),
                Ok(folder) => {
                    let b = ReceiverState::new_batch(
                        old(self)@.style,
                        roots@,
                        created@,
                        files,
                        bytes,
                        drop_at_cursor,
                        opt_text(drag_id),
                        opt_text(clipboard_id),
                        opt_text(folder),
                        now,
                    );
                    let started = report(id@, b, Status::Transferring, None);
                    if b.failed is Some {
                        &&& final(self)@ == ReceiverState {
                            batches: old(self)@.batches.remove(id@),
                            ..old(self)@
                        }
                        &&& outcome.shows(
                            OutcomeView {
                                reply: Some(ReplyView::BatchReady { id: id@, error: b.failed }),
                                effects: seq![started, EffectView::CleanUp(b.root_paths)]
                                    + stage_removal(b.stage),
                            },
                        )
                    } else {
                        &&& final(self)@ == old(self)@.with_batch(id@, b)
                        &&& outcome.shows(
                            OutcomeView {
                                reply: Some(ReplyView::BatchReady { id: id@, error: None }),
                                effects: seq![started],
                            },
                        )
                    }
                },
            },
    {
        let stage: Option<String> = match stage {
            Ok(folder) => folder,
            Err(e) => {
                let outcome = Outcome {
                    reply: Some(
                        Payload::FileBatchReady { id: id.to_owned(), ok: false, error: Some(e) },
                    ),
                    effects: Vec::new(),
                };
                assert(effect_views(outcome.effects@) =~= Seq::<EffectView>::empty());
                return outcome;
            },
        };
        let style: PathStyle = self.style;
        let n: usize = roots.len();
        let mut placed: Table<String> = Table::new();
        let mut root_paths: Vec<String> = Vec::new();
        let mut failed: Option<String> = None;
        let mut i: usize = 0;
        let ghost view = |s: String| s@;
        proof {
            assert(roots@.take(0) =~= Seq::<TransferRoot>::empty());
            assert(created@.take(0) =~= Seq::<Result<String, String>>::empty());
            assert(placed@.map_values(view) =~= Map::<Seq<char>, Seq<char>>::empty());
            assert(texts(root_paths@) =~= Seq::<Seq<char>>::empty());
        }
        while i < n
            invariant
                n == roots@.len(),
                n == created@.len(),
                i <= n,
                view == (|s: String| s@),
                placed.wf(),
                placed@.map_values(view) == created_roots(
                    style,
                    roots@.take(i as int),
                    created@.take(i as int),
                ),
                texts(root_paths@) == created_paths(
                    style,
                    roots@.take(i as int),
                    created@.take(i as int),
                ),
                opt_text(failed) == creation_error(
                    style,
                    roots@.take(i as int),
                    created@.take(i as int),
                ),
            decreases n - i,
        {
            proof {
                assert(roots@.take(i + 1).drop_last() =~= roots@.take(i as int));
                assert(created@.take(i + 1).drop_last() =~= created@.take(i as int));
                assert(roots@.take(i + 1).last() == roots@[i as int]);
                assert(created@.take(i + 1).last() == created@[i as int]);
            }
            let root: &TransferRoot = &roots[i];
            let ghost paths0 = texts(root_paths@);
            if safe_single_name(style, root.name.as_str()).is_none() {
                let mut text = "对端发送了不安全的名称: ".to_owned();
                text.push_str(root.name.as_str());
                failed = Some(text);
            } else {
                match &created[i] {
                    Ok(path) => {
                        proof {
                            lemma_mapped_insert(placed@, view, root.name@, *path);
                        }
                        placed.insert(root.name.as_str(), path.clone());
                        root_paths.push(path.clone());
                        assert(texts(root_paths@) =~= paths0.push(path@));
                    },
                    Err(e) => {
                        failed = Some(e.clone());
                    },
                }
            }
            i += 1;
        }
        assert(roots@.take(n as int) =~= roots@);
        assert(created@.take(n as int) =~= created@);
        let batch = ReceiveBatch {
            title: join_names(roots),
            roots: placed,
            root_paths,
            expected_files: files,
            completed_files: 0,
            total_bytes: bytes,
            received_bytes: 0,
            failed,
            last_emit: None,
            last_activity: now,
            drop_at_cursor,
            drag_id,
            clipboard_id,
            stage,
        };
        let started = Effect::Update(batch_update(id, &batch, Status::Transferring, None));
        let ghost b = batch@;
        match batch.failed {
            Some(error) => {
                let _ = self.take_batch(id);
                let mut effects: Vec<Effect> = vec![started, Effect::CleanUp(batch.root_paths)];
                match batch.stage {
                    Some(folder) => {
                        effects.push(Effect::RemoveFolder(folder));
                    },
                    None => {},
                }
                assert(effect_views(effects@) =~= seq![
                    report(id@, b, Status::Transferring, None),
                    EffectView::CleanUp(b.root_paths),
                ] + stage_removal(b.stage));
                Outcome {
                    reply: Some(
                        Payload::FileBatchReady { id: id.to_owned(), ok: false, error: Some(error) },
                    ),
                    effects,
                }
            },
            None => {
                self.put_batch(id, batch);
                let effects: Vec<Effect> = vec![started];
                assert(effect_views(effects@) =~= seq![
                    report(id@, b, Status::Transferring, None),
                ]);
                Outcome {
                    reply: Some(
                        Payload::FileBatchReady { id: id.to_owned(), ok: true, error: None },
                    ),
                    effects,
                }
            },
        }
    }

    /// A folder of a batch was created, or not.
    pub fn folder_made(&mut self, batch_id: &str, result: Result<(), String>, now: u64)
        requires
            old(self).wf(),
        ensures
            final(self).wf(),
            final(self)@ == match result {
                Ok(()) => old(self)@.touched(batch_id@, now),
                Err(e) => old(self)@.batch_failed(batch_id@, e@),
            },
            final(self)@ == old(self)@.folder_done(
                batch_id@,
                match result {
                    Ok(()) => None,
                    Err(e) => Some(e@),
                },
                now,
            ),
    {
        match result {
            Ok(()) => self.touch_batch(batch_id, now),
            Err(e) => self.mark_batch_failed(batch_id, e.as_str()),
        }
    }

    /// The unfinished file for `id` was created: `result` holds its path and the
    /// path that it will have when it is complete, or what went wrong.
    pub fn temp_opened(
        &mut self,
        id: &str,
        batch_id: &str,
        size: u64,
        result: Result<(String, String), String>,
        now: u64,
    ) -> (outcome: Outcome)
        requires
            old(self).wf(),
        ensures
            final(self).wf(),
            result matches Ok((temp, target)) ==> final(self)@ == old(self)@.opened(
                id@,
                batch_id@,
                size,
                temp@,
                target@,
                now,
            ),
            match result {
                Err(e) => final(self)@ == old(self)@ && outcome.shows(
                    answer(ReplyView::FileReady { id: id@, error: Some(e@) }),
                ),
                Ok((temp, target)) => {
                    let f = FileState {
                        batch: batch_id@,
                        expected: size,
                        content: Seq::empty(),
                        next_seq: 0,
                        temp: temp@,
                        target: target@,
                    };
                    &&& final(self)@ == (ReceiverState {
                        files: old(self)@.files.insert(id@, f),
                        ..old(self)@
                    }).touched(batch_id@, now)
                    &&& outcome.shows(answer(ReplyView::FileReady { id: id@, error: None }))
                },
            },
    {
        let effects: Vec<Effect> = Vec::new();
        assert(effect_views(effects@) =~= Seq::<EffectView>::empty());
        match result {
            Err(e) => Outcome {
                reply: Some(Payload::FileReady { id: id.to_owned(), ok: false, error: Some(e) }),
                effects,
            },
            Ok((temp, target)) => {
                let file = ReceiveFile {
                    batch_id: batch_id.to_owned(),
                    expected: size,
                    written: 0,
                    next_seq: 0,
                    digest: FileDigest::new(),
                    temp,
                    target,
                };
                self.put_file(id, file);
                self.touch_batch(batch_id, now);
                Outcome {
                    reply: Some(Payload::FileReady { id: id.to_owned(), ok: true, error: None }),
                    effects,
                }
            },
        }
    }

    /// Checks whether a piece of a file may be written.
    fn check_chunk(&self, id: &str, seq: u32, size: usize) -> (r: Option<String>)
        requires
            self.wf(),
        ensures
            opt_text(r) == chunk_error(self@, id@, seq, size as nat),
    {
        match self.files.get(id) {
            None => Some("文件任务不存在或已失败".to_owned()),
            Some(file) => {
                assert(self.files@.contains_key(id@));
                if seq != file.next_seq {
                    Some(
                        counted(
                            "数据块序号错误，期望 ",
                            file.next_seq as u64,
                            "，收到 ",
                            seq as u64,
                        ),
                    )
                } else if size as u64 > file.expected - file.written {
                    Some("收到的数据超过声明大小".to_owned())
                } else {
                    None
                }
            },
        }
    }

    /// A piece of a file was written, or not.
    pub fn chunk_written(
        &mut self,
        id: &str,
        data: &[u8],
        result: Result<(), String>,
        now: u64,
    ) -> (outcome: Outcome)
        requires
            old(self).wf(),
            old(self)@.files.contains_key(id@),
            old(self)@.files[id@].content.len() + data@.len() <= old(self)@.files[id@].expected,
        ensures
            final(self).wf(),
            match result {
                Err(e) => final(self)@ == old(self)@.file_failed(id@, e@) && outcome.shows(
                    OutcomeView {
                        reply: Some(ReplyView::FileResult { id: id@, error: Some(e@) }),
                        effects: old(self)@.file_failed_effects(id@),
                    },
                ),
                Ok(()) => {
                    let written = old(self)@.after_chunk(id@, data@, now);
                    let batch = old(self)@.files[id@].batch;
                    &&& final(self)@ == written.after_progress(batch, false, now)
                    &&& outcome.shows(
                        OutcomeView {
                            reply: None,
                            effects: written.progress_effects(batch, false, now),
                        },
                    )
                },
            },
            ({
                let error = match result {
                    Ok(()) => None,
                    Err(e) => Some(e@),
                };
                let done = old(self)@.chunk_done(id@, data@, error, now);
                final(self)@ == done.0 && outcome.shows(done.1)
            }),
    {
        match result {
            Err(e) => {
                let effects = self.fail_file(id, e.as_str());
                Outcome {
                    reply: Some(Payload::FileResult { id: id.to_owned(), ok: false, error: Some(e) }),
                    effects,
                }
            },
            Ok(()) => {
                let ghost before = self@;
                let mut effects: Vec<Effect> = Vec::new();
                match self.take_file(id) {
                    Some(mut file) => {
                        file.digest.update(data);
                        file.written = file.written + data.len() as u64;
                        file.next_seq = file.next_seq.saturating_add(1);
                        let batch_id = file.batch_id.clone();
                        self.put_file(id, file);
                        match self.take_batch(batch_id.as_str()) {
                            Some(mut batch) => {
                                batch.received_bytes = batch.received_bytes.saturating_add(
                                    data.len() as u64,
                                );
                                batch.last_activity = now;
                                self.put_batch(batch_id.as_str(), batch);
                            },
                            None => {},
                        }
                        proof {
                            let written = before.after_chunk(id@, data@, now);
                            assert(self@.files =~= written.files);
                            assert(self@.batches =~= written.batches);
                        }
                        effects = self.emit_receive_progress(batch_id.as_str(), false, now);
                    },
                    None => {},
                }
                Outcome { reply: None, effects }
            },
        }
    }

    fn finish(
        &mut self,
        id: &str,
        batch_id: &str,
        temp: String,
        error: Option<String>,
        now: u64,
    ) -> (outcome: Outcome)
        requires
            old(self).wf(),
        ensures
            final(self).wf(),
            final(self)@ == old(self)@.after_finish(batch_id@, opt_text(error), now).after_progress(
                batch_id@,
                true,
                now,
            ),
            outcome.shows(
                OutcomeView {
                    reply: Some(ReplyView::FileResult { id: id@, error: opt_text(error) }),
                    effects: old(self)@.finish_effects(batch_id@, temp@, opt_text(error), now),
                },
            ),
    {
        let mut effects: Vec<Effect> = Vec::new();
        let ok = error.is_none();
        match &error {
            Some(e) => {
                self.mark_batch_failed(batch_id, e.as_str());
                effects.push(Effect::RemoveFile(temp));
            },
            None => {
                match self.take_batch(batch_id) {
                    Some(mut batch) => {
                        batch.completed_files = batch.completed_files.saturating_add(1);
                        batch.last_activity = now;
                        self.put_batch(batch_id, batch);
                    },
                    None => {},
                }
                assert(self@.batches =~= old(self)@.after_finish(batch_id@, None, now).batches);
            },
        }
        let ghost first = effect_views(effects@);
        let mut progress = self.emit_receive_progress(batch_id, true, now);
        let ghost rest = effect_views(progress@);
        effects.append(&mut progress);
        proof {
            assert(effect_views(effects@) =~= first + rest);
            assert(effect_views(effects@) =~= old(self)@.finish_effects(
                batch_id@,
                temp@,
                opt_text(error),
                now,
            ));
        }
        Outcome { reply: Some(Payload::FileResult { id: id.to_owned(), ok, error }), effects }
    }

    /// A finished file was moved to its place, or not.
    pub fn file_finished(
        &mut self,
        id: &str,
        batch_id: &str,
        temp: String,
        result: Result<(), String>,
        now: u64,
    ) -> (outcome: Outcome)
        requires
            old(self).wf(),
        ensures
            final(self).wf(),
            ({
                let error = match result {
                    Ok(()) => None,
                    Err(e) => Some(e@),
                };
                &&& final(self)@ == old(self)@.after_finish(batch_id@, error, now).after_progress(
                    batch_id@,
                    true,
                    now,
                )
                &&& outcome.shows(
                    OutcomeView {
                        reply: Some(ReplyView::FileResult { id: id@, error }),
                        effects: old(self)@.finish_effects(batch_id@, temp@, error, now),
                    },
                )
                &&& final(self)@ == old(self)@.move_done(id@, batch_id@, temp@, error, now).0
                &&& outcome.shows(old(self)@.move_done(id@, batch_id@, temp@, error, now).1)
            }),
    {
        let error: Option<String> = match result {
            Ok(()) => None,
            Err(e) => Some(e),
        };
        self.finish(id, batch_id, temp, error, now)
    }
}

impl ReceiverState {
    /// An unfinished file was created at `temp`; it belongs at `target`.
    pub open spec fn opened(
        self,
        id: Seq<char>,
        batch: Seq<char>,
        size: u64,
        temp: Seq<char>,
        target: Seq<char>,
        now: u64,
    ) -> Self {
        ReceiverState {
            files: self.files.insert(
                id,
                FileState {
                    batch,
                    expected: size,
                    content: Seq::empty(),
                    next_seq: 0,
                    temp,
                    target,
                },
            ),
            ..self
        }.touched(batch, now)
    }

    /// A folder was created, or could not be for `error`.
    pub open spec fn folder_done(
        self,
        batch: Seq<char>,
        error: Option<Seq<char>>,
        now: u64,
    ) -> Self {
        match error {
            None => self.touched(batch, now),
            Some(e) => self.batch_failed(batch, e),
        }
    }

    /// What comes of a piece that was written, or could not be for `error`.
    pub open spec fn chunk_done(
        self,
        id: Seq<char>,
        data: Seq<u8>,
        error: Option<Seq<char>>,
        now: u64,
    ) -> (Self, OutcomeView) {
        match error {
            Some(e) => (
                self.file_failed(id, e),
                OutcomeView {
                    reply: Some(ReplyView::FileResult { id, error: Some(e) }),
                    effects: self.file_failed_effects(id),
                },
            ),
            None => {
                let written = self.after_chunk(id, data, now);
                let batch = self.files[id].batch;
                (
                    written.after_progress(batch, false, now),
                    OutcomeView {
                        reply: None,
                        effects: written.progress_effects(batch, false, now),
                    },
                )
            },
        }
    }

    /// What comes of a file that was moved to its place, or could not be for `error`.
    pub open spec fn move_done(
        self,
        id: Seq<char>,
        batch: Seq<char>,
        temp: Seq<char>,
        error: Option<Seq<char>>,
        now: u64,
    ) -> (Self, OutcomeView) {
        (
            self.after_finish(batch, error, now).after_progress(batch, true, now),
            OutcomeView {
                reply: Some(ReplyView::FileResult { id, error }),
                effects: self.finish_effects(batch, temp, error, now),
            },
        )
    }

    /// The roots of a batch were created, or not.
    pub open spec fn reserved(self, id: Seq<char>, b: BatchState) -> Self {
        if b.failed is Some {
            ReceiverState { batches: self.batches.remove(id), ..self }
        } else {
            self.with_batch(id, b)
        }
    }

    /// What comes of the creation of the roots of a batch.
    pub open spec fn reserved_outcome(self, id: Seq<char>, b: BatchState) -> OutcomeView {
        let started = report(id, b, Status::Transferring, None);
        OutcomeView {
            reply: Some(ReplyView::BatchReady { id, error: b.failed }),
            effects: if b.failed is Some {
                seq![started, EffectView::CleanUp(b.root_paths)] + stage_removal(b.stage)
            } else {
                seq![started]
            },
        }
    }

    /// A piece of a file has been written.
    pub open spec fn after_chunk(self, id: Seq<char>, data: Seq<u8>, now: u64) -> Self {
        let f = self.files[id];
        let files = self.files.insert(
            id,
            FileState { content: f.content + data, next_seq: capped_u32(f.next_seq + 1), ..f },
        );
        let stored = ReceiverState { files, ..self };
        if self.batches.contains_key(f.batch) {
            let b = self.batches[f.batch];
            stored.with_batch(
                f.batch,
                BatchState {
                    received_bytes: capped_u64(b.received_bytes + data.len()),
                    last_activity: now,
                    ..b
                },
            )
        } else {
            stored
        }
    }
}

impl ReceiverState {
    /// Whether the files of a batch go to the clipboard when it is complete.
    /// Files that were copied go there only while their copy is the current one.
    pub open spec fn owns_clipboard(self, b: BatchState) -> bool {
        b.drag_id is None && (b.clipboard_id is Some ==> b.clipboard_id == self.revision)
    }

    /// What is done when a batch ends.
    pub open spec fn batch_end_effects(self, id: Seq<char>) -> Seq<EffectView> {
        let b = self.batches[id];
        match batch_error(b) {
            Some(e) => seq![
                report(id, b, Status::Failed, Some(e)),
                EffectView::CleanUp(b.root_paths),
            ] + stage_removal(b.stage),
            None => {
                let delivery = match b.drag_id {
                    Some(drag) => seq![
                        EffectView::CompleteDrag { id: drag, paths: b.root_paths, error: None },
                    ],
                    None => if self.owns_clipboard(b) {
                        seq![EffectView::WriteClipboardFiles(b.root_paths)]
                    } else {
                        Seq::empty()
                    },
                };
                let later = match b.stage {
                    Some(folder) => seq![EffectView::RemoveFolderLater(folder)],
                    None => Seq::empty(),
                };
                delivery + seq![
                    completion(id, b),
                    EffectView::Received { name: b.title, paths: b.root_paths },
                ] + later
            },
        }
    }

    /// What the sending side is told when a batch ends.
    pub open spec fn batch_end_reply(self, id: Seq<char>) -> ReplyView {
        if self.batches.contains_key(id) {
            ReplyView::BatchResult {
                id,
                error: batch_error(self.batches[id]),
                drop_at_cursor: self.batches[id].drop_at_cursor,
            }
        } else {
            ReplyView::BatchResult {
                id,
                error: Some("接收任务不存在"@),
                drop_at_cursor: false,
            }
        }
    }

    pub open spec fn batch_end_outcome(self, id: Seq<char>) -> OutcomeView {
        OutcomeView {
            reply: Some(self.batch_end_reply(id)),
            effects: if self.batches.contains_key(id) {
                self.batch_end_effects(id)
            } else {
                Seq::empty()
            },
        }
    }

    /// A batch and its unfinished files are dropped.
    pub open spec fn without_batch(self, id: Seq<char>) -> Self {
        ReceiverState {
            files: self.files.remove_keys(self.files_of(id)),
            batches: self.batches.remove(id),
            ..self
        }
    }

    /// The unfinished files of a batch.
    pub open spec fn files_of(self, batch: Seq<char>) -> Set<Seq<char>> {
        self.files.dom().filter(|id: Seq<char>| self.files[id].batch == batch)
    }

    /// The removals of the unfinished files `ids`.
    pub open spec fn removals(self, ids: Seq<Seq<char>>) -> Seq<EffectView> {
        ids.map_values(|id: Seq<char>| EffectView::RemoveFile(self.files[id].temp))
    }

    /// What is done about a batch that is given up, besides the removal of its
    /// unfinished files.
    pub open spec fn cancel_effects(self, id: Seq<char>, reason: Seq<char>) -> Seq<EffectView> {
        if self.batches.contains_key(id) {
            let b = self.batches[id];
            let drag = match b.drag_id {
                Some(drag) => seq![
                    EffectView::CompleteDrag { id: drag, paths: Seq::empty(), error: Some(reason) },
                ],
                None => Seq::empty(),
            };
            drag + seq![
                report(id, b, Status::Cancelled, Some(reason)),
                EffectView::CleanUp(b.root_paths),
            ] + stage_removal(b.stage)
        } else {
            Seq::empty()
        }
    }

    /// Whether `effects` are those of giving a batch up: each of its unfinished
    /// files is removed once, in some order, and then the batch is dealt with.
    pub open spec fn cancelled_with(
        self,
        id: Seq<char>,
        reason: Seq<char>,
        effects: Seq<EffectView>,
    ) -> bool {
        exists|ids: Seq<Seq<char>>| #[trigger]
            is_listing(ids, self.files_of(id)) && effects == self.removals(ids)
                + self.cancel_effects(id, reason)
    }

    /// Whether a batch has been idle for `max_age`.
    pub open spec fn is_stale(self, id: Seq<char>, max_age: u64, now: u64) -> bool {
        &&& self.batches.contains_key(id)
        &&& elapsed(self.batches[id].last_activity, now) >= max_age
    }
}

/// The time from `start` to `now`; none where the clock says it is earlier.
pub open spec fn elapsed(start: u64, now: u64) -> int {
    if now >= start { now - start } else { 0 }
}

/// Whether `ids` lists the members of `set`, each once.
pub open spec fn is_listing(ids: Seq<Seq<char>>, set: Set<Seq<char>>) -> bool {
    ids.no_duplicates() && ids.to_set() == set
}

/// The report that a batch is complete.
pub open spec fn completion(id: Seq<char>, b: BatchState) -> EffectView {
    EffectView::Update(
        UpdateView {
            id,
            direction: Direction::Receive,
            name: b.title,
            status: Status::Completed,
            transferred: b.total_bytes,
            total: b.total_bytes,
            files_done: b.expected_files,
            files_total: b.expected_files,
            error: None,
            path: if b.root_paths.len() > 0 { Some(b.root_paths[0]) } else { None },
        },
    )
}

/// Why a batch that the sender cancelled failed.
pub open spec fn cancelled_text() -> Seq<char> {
    "发送端已取消"@
}

impl FileReceiver {
    /// Whether a batch that is said to be complete is.
    fn check_batch(batch: &ReceiveBatch) -> (r: Option<String>)
        ensures
            opt_text(r) == batch_error(batch@),
    {
        if batch.failed.is_some() {
            copy_opt(&batch.failed)
        } else if batch.completed_files != batch.expected_files {
            Some(
                counted(
                    "文件数量不符：期望 ",
                    batch.expected_files as u64,
                    "，完成 ",
                    batch.completed_files as u64,
                ),
            )
        } else if batch.received_bytes != batch.total_bytes {
            Some(
                counted(
                    "总大小不符：期望 ",
                    batch.total_bytes,
                    "，收到 ",
                    batch.received_bytes,
                ),
            )
        } else {
            None
        }
    }

    /// All of a batch was sent.
    fn on_batch_end(&mut self, id: &str) -> (outcome: Outcome)
        requires
            old(self).wf(),
        ensures
            final(self).wf(),
            final(self)@ == (ReceiverState { batches: old(self)@.batches.remove(id@), ..old(self)@ }),
            outcome.shows(old(self)@.batch_end_outcome(id@)),
    {
        let mut effects: Vec<Effect> = Vec::new();
        let batch: ReceiveBatch = match self.take_batch(id) {
            Some(b) => b,
            None => {
                assert(effect_views(effects@) =~= Seq::<EffectView>::empty());
                return Outcome {
                    reply: Some(
                        Payload::FileBatchResult {
                            id: id.to_owned(),
                            ok: false,
                            error: Some("接收任务不存在".to_owned()),
                            drop_at_cursor: false,
                        },
                    ),
                    effects,
                };
            },
        };
        let ghost b = batch@;
        let drop_at_cursor = batch.drop_at_cursor;
        match Self::check_batch(&batch) {
            Some(error) => {
                effects.push(
                    Effect::Update(batch_update(id, &batch, Status::Failed, Some(error.clone()))),
                );
                effects.push(Effect::CleanUp(batch.root_paths));
                match batch.stage {
                    Some(folder) => {
                        effects.push(Effect::RemoveFolder(folder));
                    },
                    None => {},
                }
                assert(effect_views(effects@) =~= old(self)@.batch_end_effects(id@));
                Outcome {
                    reply: Some(
                        Payload::FileBatchResult {
                            id: id.to_owned(),
                            ok: false,
                            error: Some(error),
                            drop_at_cursor,
                        },
                    ),
                    effects,
                }
            },
            None => {
                match &batch.drag_id {
                    Some(drag) => {
                        effects.push(
                            Effect::CompleteDrag {
                                id: drag.clone(),
                                paths: copy_texts(&batch.root_paths),
                                error: None,
                            },
                        );
                    },
                    None => {
                        let current: bool = match &batch.clipboard_id {
                            Some(c) => match &self.revision {
                                Some(r) => same_text(c.as_str(), r.as_str()),
                                None => false,
                            },
                            None => true,
                        };
                        if current {
                            effects.push(Effect::WriteClipboardFiles(copy_texts(&batch.root_paths)));
                        }
                    },
                }
                let path: Option<String> = if batch.root_paths.len() > 0 {
                    Some(batch.root_paths[0].clone())
                } else {
                    None
                };
                effects.push(
                    Effect::Update(
                        TransferUpdate {
                            id: id.to_owned(),
                            direction: Direction::Receive,
                            name: batch.title.clone(),
                            status: Status::Completed,
                            transferred: batch.total_bytes,
                            total: batch.total_bytes,
                            files_done: batch.expected_files,
                            files_total: batch.expected_files,
                            error: None,
                            path,
                        },
                    ),
                );
                effects.push(Effect::Received { name: batch.title, paths: batch.root_paths });
                match batch.stage {
                    Some(folder) => {
                        effects.push(Effect::RemoveFolderLater(folder));
                    },
                    None => {},
                }
                assert(effect_views(effects@) =~= old(self)@.batch_end_effects(id@));
                Outcome {
                    reply: Some(
                        Payload::FileBatchResult {
                            id: id.to_owned(),
                            ok: true,
                            error: None,
                            drop_at_cursor,
                        },
                    ),
                    effects,
                }
            },
        }
    }

    /// Drops the unfinished files of a batch.
    fn drop_files(&mut self, batch_id: &str) -> (effects: Vec<Effect>)
        requires
            old(self).wf(),
        ensures
            final(self).wf(),
            final(self)@ == (ReceiverState {
                files: old(self)@.files.remove_keys(old(self)@.files_of(batch_id@)),
                ..old(self)@
            }),
            exists|ids: Seq<Seq<char>>| #[trigger]
                is_listing(ids, old(self)@.files_of(batch_id@)) && effect_views(effects@) == old(
                    self,
                )@.removals(ids),
    {
        let ghost s0 = self@;
        let ghost doomed = s0.files_of(batch_id@);
        let names = self.files.keys();
        let n: usize = names.len();
        let mut effects: Vec<Effect> = Vec::new();
        let mut i: usize = 0;
        let ghost mut ids: Seq<Seq<char>> = Seq::empty();
        proof {
            assert(ids.to_set() =~= doomed.intersect(texts(names@).take(0).to_set()));
            assert(self@.files =~= s0.files.remove_keys(ids.to_set()));
            assert(effect_views(effects@) =~= s0.removals(ids));
            assert(self.files@.dom() =~= s0.files.dom());
        }
        while i < n
            invariant
                self.wf(),
                n == names@.len(),
                i <= n,
                texts(names@).no_duplicates(),
                texts(names@).to_set() == s0.files.dom(),
                doomed == s0.files_of(batch_id@),
                ids.no_duplicates(),
                ids.to_set() == doomed.intersect(texts(names@).take(i as int).to_set()),
                self@ == (ReceiverState { files: s0.files.remove_keys(ids.to_set()), ..s0 }),
                effect_views(effects@) == s0.removals(ids),
            decreases n - i,
        {
            let name: &String = &names[i];
            let ghost all = texts(names@);
            let ghost before = self@;
            proof {
                assert(all[i as int] == name@);
                assert(all.to_set().contains(name@));
                assert(!all.take(i as int).contains(name@)) by {
                    if all.take(i as int).contains(name@) {
                        let k = all.take(i as int).index_of(name@);
                        assert(all[k] == all[i as int]);
                    }
                }
                assert(!ids.contains(name@)) by {
                    if ids.contains(name@) {
                        assert(ids.to_set().contains(name@));
                    }
                }
                assert(all.take(i + 1) =~= all.take(i as int).push(name@));
                assert forall|x: Seq<char>| #[trigger]
                    all.take(i + 1).to_set().contains(x) == (all.take(i as int).to_set().contains(x)
                        || x == name@) by {
                    let t = all.take(i as int);
                    if t.contains(x) {
                        let k = t.index_of(x);
                        assert(all.take(i + 1)[k] == x);
                    }
                    assert(all.take(i + 1)[i as int] == name@);
                    if all.take(i + 1).contains(x) && x != name@ {
                        let k = all.take(i + 1).index_of(x);
                        assert(t[k] == x);
                    }
                }
            }
            let belongs: bool = match self.files.get(name.as_str()) {
                Some(file) => same_text(file.batch_id.as_str(), batch_id),
                None => false,
            };
            proof {
                assert(self.files@.contains_key(name@) == self@.files.contains_key(name@));
                assert(before.files.contains_key(name@));
                assert(before.files[name@] == s0.files[name@]);
                assert(self.files@[name@]@ == before.files[name@]);
                assert(doomed.contains(name@) == (s0.files[name@].batch == batch_id@));
            }
            if belongs {
                match self.take_file(name.as_str()) {
                    Some(file) => {
                        let ghost so_far = effect_views(effects@);
                        effects.push(Effect::RemoveFile(file.temp));
                        proof {
                            let more = ids.push(name@);
                            let removal = EffectView::RemoveFile(s0.files[name@].temp);
                            assert(file.temp@ == s0.files[name@].temp);
                            assert(effect_views(effects@) =~= so_far.push(removal));
                            assert(s0.removals(more) =~= s0.removals(ids).push(removal));
                            assert(more.to_set() =~= ids.to_set().insert(name@)) by {
                                assert forall|x: Seq<char>| #[trigger]
                                    more.to_set().contains(x) == ids.to_set().insert(
                                        name@,
                                    ).contains(x) by {
                                    if ids.contains(x) {
                                        let k = ids.index_of(x);
                                        assert(more[k] == x);
                                    }
                                    assert(more[ids.len() as int] == name@);
                                    if more.contains(x) && x != name@ {
                                        let k = more.index_of(x);
                                        assert(ids[k] == x);
                                    }
                                }
                            }
                            assert(self@.files =~= s0.files.remove_keys(more.to_set()));
                            assert(effect_views(effects@) =~= s0.removals(more));
                            assert(more.to_set() =~= doomed.intersect(
                                all.take(i + 1).to_set(),
                            ));
                            ids = more;
                        }
                    },
                    None => {},
                }
            } else {
                assert(ids.to_set() =~= doomed.intersect(all.take(i + 1).to_set()));
            }
            i += 1;
        }
        proof {
            assert(texts(names@).take(n as int) =~= texts(names@));
            assert(ids.to_set() =~= doomed);
            assert(is_listing(ids, doomed));
        }
        effects
    }

    /// Gives a batch up.
    pub fn cancel_batch_with_reason(&mut self, id: &str, reason: &str) -> (effects: Vec<Effect>)
        requires
            old(self).wf(),
        ensures
            final(self).wf(),
            final(self)@ == old(self)@.without_batch(id@),
            old(self)@.cancelled_with(id@, reason@, effect_views(effects@)),
    {
        let mut effects = self.drop_files(id);
        let ghost s0 = old(self)@;
        let ghost ids = choose|ids: Seq<Seq<char>>| #[trigger]
            is_listing(ids, s0.files_of(id@)) && effect_views(effects@) == s0.removals(ids);
        match self.take_batch(id) {
            Some(batch) => {
                match &batch.drag_id {
                    Some(drag) => {
                        let none: Vec<String> = Vec::new();
                        assert(texts(none@) =~= Seq::<Seq<char>>::empty());
                        effects.push(
                            Effect::CompleteDrag {
                                id: drag.clone(),
                                paths: none,
                                error: Some(reason.to_owned()),
                            },
                        );
                    },
                    None => {},
                }
                effects.push(
                    Effect::Update(
                        batch_update(id, &batch, Status::Cancelled, Some(reason.to_owned())),
                    ),
                );
                effects.push(Effect::CleanUp(batch.root_paths));
                match batch.stage {
                    Some(folder) => {
                        effects.push(Effect::RemoveFolder(folder));
                    },
                    None => {},
                }
            },
            None => {},
        }
        assert(effect_views(effects@) =~= s0.removals(ids) + s0.cancel_effects(id@, reason@));
        effects
    }

    /// A message arrived. Pieces of files are written, and files are moved to
    /// their place, only after this said so.
    pub fn handle(&mut self, payload: &Payload, now: u64) -> (h: Handling)
        requires
            old(self).wf(),
        ensures
            final(self).wf(),
            match *payload {
                Payload::FileBatchCancel { id } => {
                    &&& final(self)@ == old(self)@.without_batch(id@)
                    &&& h matches Handling::Done(o) && old(self)@.cancelled_with(
                        id@,
                        cancelled_text(),
                        effect_views(o.effects@),
                    ) && (o.reply matches Some(p) && is_reply(
                        p,
                        ReplyView::BatchResult {
                            id: id@,
                            error: Some(cancelled_text()),
                            drop_at_cursor: false,
                        },
                    ))
                },
                _ => final(self)@ == old(self)@.after_message(*payload, now) && h.shows(
                    old(self)@.message_handling(*payload, now),
                ),
            },
    {
        match payload {
            Payload::FileBatchStart { roots, .. } => Handling::Reserve {
                wanted: Self::wanted_roots(self.style, roots),
            },
            Payload::FileDirectory { batch_id, path } => {
                match self.resolve_target(batch_id.as_str(), path.as_str()) {
                    Ok((root, names)) => Handling::MakeFolder { root, names },
                    Err(e) => {
                        self.mark_batch_failed(batch_id.as_str(), e.as_str());
                        let effects: Vec<Effect> = Vec::new();
                        assert(effect_views(effects@) =~= Seq::<EffectView>::empty());
                        Handling::Done(Outcome { reply: None, effects })
                    },
                }
            },
            Payload::FileStart { id, batch_id, path, .. } => {
                match self.resolve_target(batch_id.as_str(), path.as_str()) {
                    Ok((root, names)) => Handling::OpenTemp { root, names },
                    Err(e) => {
                        let effects: Vec<Effect> = Vec::new();
                        assert(effect_views(effects@) =~= Seq::<EffectView>::empty());
                        Handling::Done(
                            Outcome {
                                reply: Some(
                                    Payload::FileReady { id: id.clone(), ok: false, error: Some(e) },
                                ),
                                effects,
                            },
                        )
                    },
                }
            },
            Payload::FileChunk { id, seq, data } => {
                match self.check_chunk(id.as_str(), *seq, data.len()) {
                    None => Handling::Write,
                    Some(e) => {
                        let effects = self.fail_file(id.as_str(), e.as_str());
                        Handling::Done(
                            Outcome {
                                reply: Some(
                                    Payload::FileResult { id: id.clone(), ok: false, error: Some(e) },
                                ),
                                effects,
                            },
                        )
                    },
                }
            },
            Payload::FileEnd { id, sha256 } => self.on_end(id.as_str(), sha256.as_str(), now),
            Payload::FileCancel { id } => {
                let effects = self.fail_file(id.as_str(), "发送端已取消");
                Handling::Done(Outcome { reply: None, effects })
            },
            Payload::FileBatchEnd { id } => Handling::Done(self.on_batch_end(id.as_str())),
            Payload::FileBatchCancel { id } => {
                let effects = self.cancel_batch_with_reason(id.as_str(), "发送端已取消");
                Handling::Done(
                    Outcome {
                        reply: Some(
                            Payload::FileBatchResult {
                                id: id.clone(),
                                ok: false,
                                error: Some("发送端已取消".to_owned()),
                                drop_at_cursor: false,
                            },
                        ),
                        effects,
                    },
                )
            },
            _ => Handling::NotMine,
        }
    }

    /// All of a file was sent.
    fn on_end(&mut self, id: &str, sha256: &str, now: u64) -> (h: Handling)
        requires
            old(self).wf(),
        ensures
            final(self).wf(),
            final(self)@ == old(self)@.after_end(id@, sha256@, now),
            h.shows(old(self)@.end_handling(id@, sha256@, now)),
    {
        let file: ReceiveFile = match self.take_file(id) {
            Some(f) => f,
            None => {
                let effects: Vec<Effect> = Vec::new();
                assert(effect_views(effects@) =~= Seq::<EffectView>::empty());
                assert(self@.files =~= old(self)@.files);
                return Handling::Done(
                    Outcome {
                        reply: Some(
                            Payload::FileResult {
                                id: id.to_owned(),
                                ok: false,
                                error: Some("文件任务不存在或已失败".to_owned()),
                            },
                        ),
                        effects,
                    },
                );
            },
        };
        if file.written != file.expected {
            let error = counted(
                "文件大小不符：期望 ",
                file.expected,
                "，实际 ",
                file.written,
            );
            return Handling::Done(
                self.finish(id, file.batch_id.as_str(), file.temp, Some(error), now),
            );
        }
        let intact: bool = match file.digest.finish() {
            Some(actual) => same_text(actual.as_str(), sha256),
            None => false,
        };
        if !intact {
            return Handling::Done(
                self.finish(
                    id,
                    file.batch_id.as_str(),
                    file.temp,
                    Some("文件校验失败，内容不完整".to_owned()),
                    now,
                ),
            );
        }
        Handling::Finish { batch_id: file.batch_id, temp: file.temp, target: file.target }
    }

    /// Gives up the batches that have been idle for `max_age`.
    pub fn cleanup_stale(&mut self, max_age: u64, now: u64) -> (effects: Vec<Effect>)
        requires
            old(self).wf(),
        ensures
            final(self).wf(),
            exists|
                states: Seq<ReceiverState>,
                ids: Seq<Seq<char>>,
                parts: Seq<Seq<EffectView>>,
            | #[trigger]
                given_up(states, ids, parts) && states[0] == old(self)@
                    && states.last() == final(self)@
                    && stale_listing(old(self)@, ids, max_age, now)
                    && effect_views(effects@) == parts.flatten(),
    {
        let names = self.batches.keys();
        let n: usize = names.len();
        let ghost s0 = self@;
        let mut effects: Vec<Effect> = Vec::new();
        let mut i: usize = 0;
        let ghost mut ids: Seq<Seq<char>> = Seq::empty();
        let ghost mut parts: Seq<Seq<EffectView>> = Seq::empty();
        let ghost mut states: Seq<ReceiverState> = seq![s0];
        let ghost all = texts(names@);
        proof {
            assert(s0.batches.dom() =~= self.batches@.dom());
            assert(effect_views(effects@) =~= parts.flatten());
        }
        while i < n
            invariant
                self.wf(),
                n == names@.len(),
                i <= n,
                all == texts(names@),
                all.no_duplicates(),
                all.to_set() == s0.batches.dom(),
                ids.no_duplicates(),
                forall|x: Seq<char>| #[trigger]
                    ids.contains(x) <==> all.take(i as int).contains(x) && s0.is_stale(
                        x,
                        max_age,
                        now,
                    ),
                given_up(states, ids, parts),
                states[0] == s0,
                states.last() == self@,
                effect_views(effects@) == parts.flatten(),
            decreases n - i,
        {
            let name: &String = &names[i];
            proof {
                assert(all[i as int] == name@);
                assert(!all.take(i as int).contains(name@)) by {
                    if all.take(i as int).contains(name@) {
                        let k = all.take(i as int).index_of(name@);
                        assert(all[k] == all[i as int]);
                    }
                }
                assert forall|x: Seq<char>| #[trigger]
                    all.take(i + 1).contains(x) <==> (all.take(i as int).contains(x) || x
                        == name@) by {
                    let t = all.take(i as int);
                    if t.contains(x) {
                        let k = t.index_of(x);
                        assert(all.take(i + 1)[k] == x);
                    }
                    assert(all.take(i + 1)[i as int] == name@);
                    if all.take(i + 1).contains(x) && x != name@ {
                        let k = all.take(i + 1).index_of(x);
                        assert(t[k] == x);
                    }
                }
                assert(s0.batches.contains_key(name@)) by {
                    assert(all.contains(name@));
                    assert(all.to_set().contains(name@));
                }
                lemma_given_up_keeps_others(states, ids, parts, name@, ids.len() as int);
            }
            let stale: bool = match self.batches.get(name.as_str()) {
                Some(batch) => now >= batch.last_activity && now - batch.last_activity >= max_age
                    || max_age == 0,
                None => false,
            };
            proof {
                assert(self.batches@.contains_key(name@) == self@.batches.contains_key(name@));
            }
            if stale {
                let mut more = self.cancel_batch_with_reason(
                    name.as_str(),
                    "传输超时，已清理临时文件",
                );
                let ghost part = effect_views(more@);
                let ghost so_far = effect_views(effects@);
                effects.append(&mut more);
                proof {
                    assert(effect_views(effects@) =~= so_far + part);
                    let parts2 = parts.push(part);
                    let ids2 = ids.push(name@);
                    let states2 = states.push(self@);
                    parts.lemma_flatten_push(part);
                    assert(!ids.contains(name@));
                    assert forall|a: int, b: int|
                        0 <= a < ids2.len() && 0 <= b < ids2.len() && a != b implies ids2[a]
                        != ids2[b] by {
                        if a < ids.len() {
                            assert(ids.contains(ids[a]));
                        }
                        if b < ids.len() {
                            assert(ids.contains(ids[b]));
                        }
                    }
                    assert(given_up(states2, ids2, parts2)) by {
                        assert forall|k: int| 0 <= k < ids2.len() implies gives_up(
                            states2[k],
                            #[trigger] ids2[k],
                            parts2[k],
                            states2[k + 1],
                        ) by {
                            if k < ids.len() {
                                assert(gives_up(states[k], ids[k], parts[k], states[k + 1]));
                            }
                        }
                    }
                    assert forall|x: Seq<char>| #[trigger]
                        ids2.contains(x) <==> all.take(i + 1).contains(x) && s0.is_stale(
                            x,
                            max_age,
                            now,
                        ) by {
                        if ids.contains(x) {
                            let k = ids.index_of(x);
                            assert(ids2[k] == x);
                        }
                        assert(ids2[ids.len() as int] == name@);
                        if ids2.contains(x) && x != name@ {
                            let k = ids2.index_of(x);
                            assert(ids[k] == x);
                            assert(ids.contains(x));
                        }
                    }
                    ids = ids2;
                    parts = parts2;
                    states = states2;
                }
            }
            i += 1;
        }
        proof {
            assert(all.take(n as int) =~= all);
            assert forall|x: Seq<char>| #[trigger]
                ids.contains(x) <==> s0.is_stale(x, max_age, now) by {
                if s0.is_stale(x, max_age, now) {
                    assert(all.to_set().contains(x));
                }
            }
            assert(stale_listing(s0, ids, max_age, now));
        }
        effects
    }

    /// A copy on the peer begins: its revision is now the current one.
    pub fn begin_clipboard_revision(&mut self, id: &str) -> (accepted: bool)
        requires
            old(self).wf(),
        ensures
            final(self).wf(),
            final(self)@ == (ReceiverState { revision: Some(id@), ..old(self)@ }),
            accepted,
    {
        self.revision = Some(id.to_owned());
        true
    }

    /// What the peer copied is no longer current.
    pub fn invalidate_clipboard_revision(&mut self)
        requires
            old(self).wf(),
        ensures
            final(self).wf(),
            final(self)@ == (ReceiverState { revision: None, ..old(self)@ }),
    {
        self.revision = None;
    }
}

/// Whether `ids` lists the batches that have been idle too long, each once.
pub open spec fn stale_listing(
    s: ReceiverState,
    ids: Seq<Seq<char>>,
    max_age: u64,
    now: u64,
) -> bool {
    &&& ids.no_duplicates()
    &&& forall|x: Seq<char>| #[trigger] ids.contains(x) <==> s.is_stale(x, max_age, now)
}

/// Whether giving up the batch `id` leads from `before` to `after`, with the
/// effects `part`.
pub open spec fn gives_up(
    before: ReceiverState,
    id: Seq<char>,
    part: Seq<EffectView>,
    after: ReceiverState,
) -> bool {
    &&& before.cancelled_with(id, "传输超时，已清理临时文件"@, part)
    &&& after == before.without_batch(id)
}

/// Whether giving up the batches `ids` one after the other passes through
/// `states`, with the effects `parts`.
pub open spec fn given_up(
    states: Seq<ReceiverState>,
    ids: Seq<Seq<char>>,
    parts: Seq<Seq<EffectView>>,
) -> bool {
    &&& states.len() == ids.len() + 1
    &&& parts.len() == ids.len()
    &&& forall|i: int|
        0 <= i < ids.len() ==> gives_up(states[i], #[trigger] ids[i], parts[i], states[i + 1])
}

proof fn lemma_given_up_keeps_others(
    states: Seq<ReceiverState>,
    ids: Seq<Seq<char>>,
    parts: Seq<Seq<EffectView>>,
    x: Seq<char>,
    k: int,
)
    requires
        given_up(states, ids, parts),
        !ids.contains(x),
        0 <= k <= ids.len(),
    ensures
        states[k].batches.contains_key(x) == states[0].batches.contains_key(x),
        states[0].batches.contains_key(x) ==> states[k].batches[x] == states[0].batches[x],
    decreases k,
{
    if k > 0 {
        lemma_given_up_keeps_others(states, ids, parts, x, k - 1);
        assert(ids[k - 1] != x);
        assert(gives_up(states[k - 1], ids[k - 1], parts[k - 1], states[k]));
    }
}

impl ReceiverState {
    pub open spec fn after_end(self, id: Seq<char>, sha256: Seq<char>, now: u64) -> Self {
        if self.files.contains_key(id) {
            let f = self.files[id];
            let rest = ReceiverState { files: self.files.remove(id), ..self };
            match file_error(f, sha256) {
                Some(e) => rest.after_finish(f.batch, Some(e), now).after_progress(
                    f.batch,
                    true,
                    now,
                ),
                None => rest,
            }
        } else {
            self
        }
    }

    pub open spec fn end_handling(self, id: Seq<char>, sha256: Seq<char>, now: u64) -> HandlingView {
        if self.files.contains_key(id) {
            let f = self.files[id];
            let rest = ReceiverState { files: self.files.remove(id), ..self };
            match file_error(f, sha256) {
                Some(e) => HandlingView::Done(
                    OutcomeView {
                        reply: Some(ReplyView::FileResult { id, error: Some(e) }),
                        effects: rest.finish_effects(f.batch, f.temp, Some(e), now),
                    },
                ),
                None => HandlingView::Finish { batch: f.batch, temp: f.temp, target: f.target },
            }
        } else {
            HandlingView::Done(
                answer(
                    ReplyView::FileResult { id, error: Some("文件任务不存在或已失败"@) },
                ),
            )
        }
    }

    /// The state after a message was looked at.
    pub open spec fn after_message(self, p: Payload, now: u64) -> Self {
        match p {
            Payload::FileDirectory { batch_id, path } => match target_error(
                self,
                batch_id@,
                path@,
            ) {
                Some(e) => self.batch_failed(batch_id@, e),
                None => self,
            },
            Payload::FileChunk { id, seq, data } => match chunk_error(
                self,
                id@,
                seq,
                data@.len(),
            ) {
                Some(e) => self.file_failed(id@, e),
                None => self,
            },
            Payload::FileEnd { id, sha256 } => self.after_end(id@, sha256@, now),
            Payload::FileCancel { id } => self.file_failed(id@, cancelled_text()),
            Payload::FileBatchEnd { id } => ReceiverState {
                batches: self.batches.remove(id@),
                ..self
            },
            Payload::FileBatchCancel { id } => self.without_batch(id@),
            _ => self,
        }
    }

    /// What is due after a message other than a cancellation of a batch.
    pub open spec fn message_handling(self, p: Payload, now: u64) -> HandlingView {
        match p {
            Payload::FileBatchStart { roots, .. } => HandlingView::Reserve {
                wanted: wanted_names(self.style, roots@),
            },
            Payload::FileDirectory { batch_id, path } => match target_error(
                self,
                batch_id@,
                path@,
            ) {
                Some(e) => HandlingView::Done(silent()),
                None => HandlingView::MakeFolder {
                    root: self.root_of(batch_id@, path@),
                    names: path_names(BATCH_PATHS, path@).skip(1),
                },
            },
            Payload::FileStart { id, batch_id, path, .. } => match target_error(
                self,
                batch_id@,
                path@,
            ) {
                Some(e) => HandlingView::Done(
                    answer(ReplyView::FileReady { id: id@, error: Some(e) }),
                ),
                None => HandlingView::OpenTemp {
                    root: self.root_of(batch_id@, path@),
                    names: path_names(BATCH_PATHS, path@).skip(1),
                },
            },
            Payload::FileChunk { id, seq, data } => match chunk_error(
                self,
                id@,
                seq,
                data@.len(),
            ) {
                Some(e) => HandlingView::Done(
                    OutcomeView {
                        reply: Some(ReplyView::FileResult { id: id@, error: Some(e) }),
                        effects: self.file_failed_effects(id@),
                    },
                ),
                None => HandlingView::Write,
            },
            Payload::FileEnd { id, sha256 } => self.end_handling(id@, sha256@, now),
            Payload::FileCancel { id } => HandlingView::Done(
                OutcomeView { reply: None, effects: self.file_failed_effects(id@) },
            ),
            Payload::FileBatchEnd { id } => HandlingView::Done(self.batch_end_outcome(id@)),
            _ => HandlingView::NotMine,
        }
    }
}

/// A file is put in its place only if all of it arrived and its digest is the
/// one that the sender announced.
pub proof fn law_only_intact_files_are_kept(
    s: ReceiverState,
    id: Seq<char>,
    sha256: Seq<char>,
    now: u64,
)
    ensures
        s.end_handling(id, sha256, now) is Finish <==> s.files.contains_key(id)
            && s.files[id].content.len() == s.files[id].expected && digest_text(s.files[id].content)
            == Some(sha256),
        !s.after_end(id, sha256, now).files.contains_key(id),
{
}

/// The first error of a batch stays its error, whatever goes wrong later.
pub proof fn law_first_error_is_kept(
    s: ReceiverState,
    id: Seq<char>,
    first: Seq<char>,
    second: Seq<char>,
)
    requires
        s.batches.contains_key(id),
        s.batches[id].failed is None,
    ensures
        s.batch_failed(id, first).batches[id].failed == Some(first),
        s.batch_failed(id, first).batch_failed(id, second) == s.batch_failed(id, first),
{
}

/// A lost, repeated or oversized piece voids its file, and the batch of that
/// file then ends with an error.
pub proof fn law_a_bad_piece_voids_the_file(s: ReceiverState, id: Seq<char>, seq: u32, size: nat)
    requires
        s.files.contains_key(id),
        s.batches.contains_key(s.files[id].batch),
        seq != s.files[id].next_seq || s.files[id].content.len() + size > s.files[id].expected,
    ensures
        chunk_error(s, id, seq, size) is Some,
        ({
            let after = s.file_failed(id, chunk_error(s, id, seq, size)->Some_0);
            &&& !after.files.contains_key(id)
            &&& batch_error(after.batches[s.files[id].batch]) is Some
            &&& s.batches[s.files[id].batch].failed is None ==> batch_error(
                after.batches[s.files[id].batch],
            ) == chunk_error(s, id, seq, size)
        }),
{
}

/// A batch succeeds exactly if nothing went wrong and all its files and bytes
/// arrived; otherwise what was created for it is deleted.
pub proof fn law_batch_succeeds_only_complete(s: ReceiverState, id: Seq<char>)
    requires
        s.batches.contains_key(id),
    ensures
        ({
            let b = s.batches[id];
            let complete = b.failed is None && b.completed_files == b.expected_files
                && b.received_bytes == b.total_bytes;
            &&& s.batch_end_reply(id) == ReplyView::BatchResult {
                id,
                error: batch_error(b),
                drop_at_cursor: b.drop_at_cursor,
            }
            &&& batch_error(b) is None <==> complete
            &&& !complete ==> s.batch_end_effects(id)[1] == EffectView::CleanUp(b.root_paths)
        }),
{
}

/// Files that were copied on the peer reach the clipboard only while that copy
/// is the current one.
pub proof fn law_only_the_current_copy_owns_the_clipboard(s: ReceiverState, id: Seq<char>)
    requires
        s.batches.contains_key(id),
        s.batches[id].clipboard_id is Some,
        s.batches[id].clipboard_id != s.revision,
    ensures
        forall|i: int|
            0 <= i < s.batch_end_effects(id).len() ==> !(#[trigger] s.batch_end_effects(id)[i]
                is WriteClipboardFiles),
{
}

/// A batch that was given up leaves nothing behind: neither itself nor any file
/// of it is received any longer, and nothing else is touched.
pub proof fn law_cancelled_batch_is_gone(s: ReceiverState, id: Seq<char>)
    ensures
        !s.without_batch(id).batches.contains_key(id),
        forall|f: Seq<char>| #[trigger]
            s.without_batch(id).files.contains_key(f) <==> s.files.contains_key(f)
                && s.files[f].batch != id,
        forall|b: Seq<char>|
            b != id ==> #[trigger] s.without_batch(id).batches.contains_key(b)
                == s.batches.contains_key(b),
{
}

/// Every folder and file that the peer may create has a plain name inside a
/// folder that was created for the batch.
pub proof fn law_targets_stay_inside(s: ReceiverState, batch: Seq<char>, path: Seq<char>)
    requires
        target_error(s, batch, path) is None,
    ensures
        s.batches[batch].roots.contains_key(path_names(BATCH_PATHS, path)[0]),
        forall|i: int|
            0 <= i < path_names(BATCH_PATHS, path).skip(1).len() ==> plain_name(
                BATCH_PATHS,
                #[trigger] path_names(BATCH_PATHS, path).skip(1)[i],
            ),
{
    law_accepted_names_stay_inside(BATCH_PATHS, path);
    assert forall|i: int| 0 <= i < path_names(BATCH_PATHS, path).skip(1).len() implies plain_name(
        BATCH_PATHS,
        #[trigger] path_names(BATCH_PATHS, path).skip(1)[i],
    ) by {
        assert(plain_name(BATCH_PATHS, path_names(BATCH_PATHS, path)[i + 1]));
    }
}

/// The state after the first `k` pieces of a file were written.
pub open spec fn after_pieces(
    s: ReceiverState,
    id: Seq<char>,
    pieces: Seq<Seq<u8>>,
    k: nat,
    now: u64,
) -> ReceiverState
    decreases k,
{
    if k == 0 {
        s
    } else {
        after_pieces(s, id, pieces, (k - 1) as nat, now).after_chunk(id, pieces[k - 1], now)
    }
}

/// A file that is sent in pieces, one after the other and numbered from zero,
/// arrives whole: no piece is refused, and with the digest of its contents it is
/// put in its place. A piece whose number is too large carries the largest number.
pub proof fn law_a_file_arrives_whole(
    s: ReceiverState,
    id: Seq<char>,
    pieces: Seq<Seq<u8>>,
    k: nat,
    now: u64,
)
    requires
        s.files.contains_key(id),
        s.files[id].content == Seq::<u8>::empty(),
        s.files[id].next_seq == 0,
        s.files[id].expected == pieces.flatten().len(),
        k <= pieces.len(),
    ensures
        ({
            let r = after_pieces(s, id, pieces, k, now);
            &&& r.files.contains_key(id)
            &&& r.files[id].content == pieces.take(k as int).flatten()
            &&& r.files[id].next_seq == capped_u32(k as int)
            &&& r.files[id].expected == s.files[id].expected
            &&& k < pieces.len() ==> chunk_error(
                r,
                id,
                capped_u32(k as int),
                pieces[k as int].len(),
            ) is None
            &&& k == pieces.len() && pieces.flatten().len() < SHA256_LIMIT
                ==> r.end_handling(id, digest_text(pieces.flatten())->Some_0, now) is Finish
        }),
    decreases k,
{
    if k > 0 {
        let j = (k - 1) as nat;
        law_a_file_arrives_whole(s, id, pieces, j, now);
        assert(pieces.take(k as int) =~= pieces.take(j as int).push(pieces[j as int]));
        pieces.take(j as int).lemma_flatten_push(pieces[j as int]);
    } else {
        assert(pieces.take(0) =~= Seq::<Seq<u8>>::empty());
    }
    if k < pieces.len() {
        assert(pieces.take(k as int + 1) =~= pieces.take(k as int).push(pieces[k as int]));
        pieces.take(k as int).lemma_flatten_push(pieces[k as int]);
        lemma_part_is_not_longer(pieces, k as int + 1);
    } else {
        assert(pieces.take(k as int) =~= pieces);
    }
}

pub proof fn lemma_part_is_not_longer(pieces: Seq<Seq<u8>>, k: int)
    requires
        0 <= k <= pieces.len(),
    ensures
        pieces.take(k).flatten().len() <= pieces.flatten().len(),
    decreases pieces.len() - k,
{
    if k == pieces.len() {
        assert(pieces.take(k) =~= pieces);
    } else {
        assert(pieces.take(k + 1) =~= pieces.take(k).push(pieces[k]));
        pieces.take(k).lemma_flatten_push(pieces[k]);
        lemma_part_is_not_longer(pieces, k + 1);
    }
}

/// After the roots of a batch were created, the name of each root leads to the path that
/// was created for that very root, and no name leads anywhere else.
pub proof fn law_roots_lead_to_their_places(
    style: PathStyle,
    roots: Seq<TransferRoot>,
    created: Seq<Result<String, String>>,
    i: int,
)
    requires
        roots.len() == created.len(),
        0 <= i < roots.len(),
        forall|a: int, b: int|
            0 <= a < b < roots.len() ==> (#[trigger] roots[a]).name@ != (#[trigger] roots[b]).name@,
    ensures
        created[i] is Ok && single_name(style, roots[i].name@) is Some ==> {
            &&& created_roots(style, roots, created).contains_key(roots[i].name@)
            &&& created_roots(style, roots, created)[roots[i].name@] == created[i]->Ok_0@
        },
        created[i] is Err || single_name(style, roots[i].name@) is None ==> !created_roots(
            style,
            roots,
            created,
        ).contains_key(roots[i].name@),
        forall|n: Seq<char>| #[trigger]
            created_roots(style, roots, created).contains_key(n) ==> exists|j: int|
                0 <= j < roots.len() && (#[trigger] roots[j]).name@ == n,
    decreases roots.len(),
{
    let n = roots.len() - 1;
    let r0 = roots.drop_last();
    let c0 = created.drop_last();
    assert forall|a: int, b: int| 0 <= a < b < r0.len() implies (#[trigger] r0[a]).name@ != (
    #[trigger] r0[b]).name@ by {
        assert(roots[a].name@ != roots[b].name@);
    }
    assert(roots.last() == roots[n] && created.last() == created[n]);
    if i < n {
        law_roots_lead_to_their_places(style, r0, c0, i);
        assert(r0[i] == roots[i] && c0[i] == created[i]);
        assert(roots[i].name@ != roots[n].name@);
    } else {
        lemma_created_names(style, r0, c0);
        if created_roots(style, r0, c0).contains_key(roots[n].name@) {
            let j = choose|j: int| 0 <= j < r0.len() && (#[trigger] r0[j]).name@ == roots[n].name@;
            assert(roots[j].name@ != roots[n].name@);
        }
    }
    lemma_created_names(style, roots, created);
}

proof fn lemma_created_names(
    style: PathStyle,
    roots: Seq<TransferRoot>,
    created: Seq<Result<String, String>>,
)
    requires
        roots.len() == created.len(),
    ensures
        forall|n: Seq<char>| #[trigger]
            created_roots(style, roots, created).contains_key(n) ==> exists|j: int|
                0 <= j < roots.len() && (#[trigger] roots[j]).name@ == n,
    decreases roots.len(),
{
    if roots.len() > 0 {
        let r0 = roots.drop_last();
        lemma_created_names(style, r0, created.drop_last());
        assert forall|n: Seq<char>| #[trigger]
            created_roots(style, roots, created).contains_key(n) implies exists|j: int|
            0 <= j < roots.len() && (#[trigger] roots[j]).name@ == n by {
            if n == roots.last().name@ {
                assert(roots[roots.len() - 1].name@ == n);
            } else {
                assert(created_roots(style, r0, created.drop_last()).contains_key(n));
                let j = choose|j: int| 0 <= j < r0.len() && (#[trigger] r0[j]).name@ == n;
                assert(roots[j].name@ == n);
            }
        }
    }
}

/// Where all roots could be created, they are known with their paths in the order of the
/// announcement, and nothing is wrong; where one could not, the batch is refused for it.
pub proof fn law_roots_are_created_one_by_one(
    style: PathStyle,
    roots: Seq<TransferRoot>,
    created: Seq<Result<String, String>>,
)
    requires
        roots.len() == created.len(),
    ensures
        creation_error(style, roots, created) is None <==> forall|i: int|
            0 <= i < roots.len() ==> (#[trigger] created[i]) is Ok && single_name(
                style,
                roots[i].name@,
            ) is Some,
        creation_error(style, roots, created) is None ==> {
            &&& created_paths(style, roots, created).len() == roots.len()
            &&& forall|i: int|
                0 <= i < roots.len() ==> #[trigger] created_paths(style, roots, created)[i]
                    == created[i]->Ok_0@
        },
        roots.len() > 0 && single_name(style, roots.last().name@) is None ==> creation_error(
            style,
            roots,
            created,
        ) == Some("对端发送了不安全的名称: "@ + roots.last().name@),
        roots.len() > 0 && single_name(style, roots.last().name@) is Some && created.last() is Err
            ==> creation_error(style, roots, created) == Some(created.last()->Err_0@),
    decreases roots.len(),
{
    if roots.len() > 0 {
        let n = roots.len() - 1;
        let r0 = roots.drop_last();
        let c0 = created.drop_last();
        law_roots_are_created_one_by_one(style, r0, c0);
        assert(roots.last() == roots[n] && created.last() == created[n]);
        if creation_error(style, roots, created) is None {
            assert forall|i: int| 0 <= i < roots.len() implies (#[trigger] created[i]) is Ok
                && single_name(style, roots[i].name@) is Some by {
                if i < n {
                    assert(c0[i] is Ok);
                }
            }
            assert forall|i: int| 0 <= i < roots.len() implies #[trigger] created_paths(
                style,
                roots,
                created,
            )[i] == created[i]->Ok_0@ by {
                if i < n {
                    assert(created_paths(style, r0, c0)[i] == c0[i]->Ok_0@);
                }
            }
        } else if forall|i: int|
            0 <= i < roots.len() ==> (#[trigger] created[i]) is Ok && single_name(
                style,
                roots[i].name@,
            ) is Some {
            assert(created[n] is Ok);
            assert forall|i: int| 0 <= i < r0.len() implies (#[trigger] c0[i]) is Ok && single_name(
                style,
                r0[i].name@,
            ) is Some by {
                assert(created[i] is Ok);
            }
        }
    }
}

/// Each file and folder of a batch is put below the place of its own root: the first name
/// of its path tells the root, and the others lead on from there.
pub proof fn law_each_file_goes_to_its_own_place(
    s: ReceiverState,
    id: String,
    batch: String,
    path: String,
    size: u64,
    roots: Seq<TransferRoot>,
    created: Seq<Result<String, String>>,
    b: BatchState,
    i: int,
    now: u64,
)
    requires
        roots.len() == created.len(),
        0 <= i < roots.len(),
        forall|k: int, l: int|
            0 <= k < l < roots.len() ==> (#[trigger] roots[k]).name@ != (#[trigger] roots[l]).name@,
        created[i] is Ok,
        single_name(s.style, roots[i].name@) is Some,
        b.roots == created_roots(s.style, roots, created),
        !leads_out(BATCH_PATHS, path@),
        path_names(BATCH_PATHS, path@).len() > 0,
        path_names(BATCH_PATHS, path@)[0] == roots[i].name@,
    ensures
        ({
            let known = s.with_batch(batch@, b);
            let place = created[i]->Ok_0@;
            let below = path_names(BATCH_PATHS, path@).skip(1);
            &&& known.message_handling(Payload::FileStart { id, batch_id: batch, path, size }, now)
                == (HandlingView::OpenTemp { root: place, names: below })
            &&& known.message_handling(Payload::FileDirectory { batch_id: batch, path }, now) == (
            HandlingView::MakeFolder { root: place, names: below })
        }),
{
    law_roots_lead_to_their_places(s.style, roots, created, i);
}

/// A new batch is as it was announced, and nothing of it has arrived.
pub proof fn law_new_batch_is_as_announced(
    style: PathStyle,
    roots: Seq<TransferRoot>,
    created: Seq<Result<String, String>>,
    files: u32,
    bytes: u64,
    drop_at_cursor: bool,
    drag_id: Option<Seq<char>>,
    clipboard_id: Option<Seq<char>>,
    stage: Option<Seq<char>>,
    now: u64,
    s: ReceiverState,
    id: Seq<char>,
    other: Seq<char>,
)
    ensures
        ({
            let b = ReceiverState::new_batch(
                style,
                roots,
                created,
                files,
                bytes,
                drop_at_cursor,
                drag_id,
                clipboard_id,
                stage,
                now,
            );
            &&& b.roots == created_roots(style, roots, created)
            &&& b.root_paths == created_paths(style, roots, created)
            &&& b.failed == creation_error(style, roots, created)
            &&& b.expected_files == files && b.total_bytes == bytes
            &&& b.completed_files == 0 && b.received_bytes == 0
            &&& b.drop_at_cursor == drop_at_cursor && b.drag_id == drag_id && b.clipboard_id
                == clipboard_id && b.stage == stage
            &&& b.last_activity == now && b.last_emit is None
            &&& b.failed is None ==> s.reserved(id, b).batches.contains_key(id) && s.reserved(
                id,
                b,
            ).batches[id] == b
            &&& b.failed is Some ==> !s.reserved(id, b).batches.contains_key(id)
            &&& other != id ==> s.reserved(id, b).batches.contains_key(other)
                == s.batches.contains_key(other)
            &&& s.reserved(id, b).files == s.files && s.reserved(id, b).revision == s.revision
            &&& s.reserved_outcome(id, b).reply == Some(
                ReplyView::BatchReady { id, error: creation_error(style, roots, created) },
            )
            &&& b.failed is Some ==> s.reserved_outcome(id, b).effects.contains(
                EffectView::CleanUp(created_paths(style, roots, created)),
            )
            &&& b.failed is None ==> s.reserved_outcome(id, b).effects.len() == 1
        }),
{
    let b = ReceiverState::new_batch(
        style,
        roots,
        created,
        files,
        bytes,
        drop_at_cursor,
        drag_id,
        clipboard_id,
        stage,
        now,
    );
    if b.failed is Some {
        assert(s.reserved_outcome(id, b).effects[1] == EffectView::CleanUp(b.root_paths));
    }
}

/// A file that was begun keeps its batch, its size, its unfinished place and its final
/// place until it ends: when all of it arrived, it is this unfinished file that is moved
/// to this place, for this batch.
pub proof fn law_a_file_ends_where_it_belongs(
    s: ReceiverState,
    id: Seq<char>,
    batch: Seq<char>,
    temp: Seq<char>,
    target: Seq<char>,
    data: Seq<u8>,
    now: u64,
)
    requires
        data.len() <= u64::MAX,
        data.len() < SHA256_LIMIT,
    ensures
        ({
            let begun = s.opened(id, batch, data.len() as u64, temp, target, now);
            let written = begun.after_chunk(id, data, now);
            &&& begun.files[id].content.len() == 0 && begun.files[id].next_seq == 0
            &&& begun.files[id].expected == data.len()
            &&& written.files[id].content == data
            &&& written.end_handling(id, digest_text(data)->Some_0, now) == (HandlingView::Finish {
                batch,
                temp,
                target,
            })
            &&& written.end_handling(id, digest_text(data)->Some_0.push('x'), now) is Done
        }),
{
    let begun = s.opened(id, batch, data.len() as u64, temp, target, now);
    assert(Seq::<u8>::empty() + data =~= data);
    assert(begun.after_chunk(id, data, now).files[id].content =~= data);
    assert(digest_text(data)->Some_0.push('x').len() != digest_text(data)->Some_0.len());
}

/// A piece adds its bytes to its file and to its batch, and touches nothing else.
pub proof fn law_a_piece_adds_its_bytes(
    s: ReceiverState,
    id: Seq<char>,
    data: Seq<u8>,
    now: u64,
    other: Seq<char>,
)
    requires
        s.files.contains_key(id),
        s.files[id].next_seq < u32::MAX,
    ensures
        ({
            let f = s.files[id];
            let a = s.after_chunk(id, data, now);
            &&& a.files.contains_key(id)
            &&& a.files[id].content == f.content + data
            &&& a.files[id].next_seq == f.next_seq + 1
            &&& a.files[id].batch == f.batch && a.files[id].expected == f.expected
                && a.files[id].temp == f.temp && a.files[id].target == f.target
            &&& other != id ==> a.files.contains_key(other) == s.files.contains_key(other)
            &&& other != id && s.files.contains_key(other) ==> a.files[other] == s.files[other]
            &&& s.batches.contains_key(f.batch) && s.batches[f.batch].received_bytes + data.len()
                <= u64::MAX ==> a.batches[f.batch].received_bytes == s.batches[f.batch].received_bytes
                + data.len() && a.batches[f.batch].last_activity == now
                && a.batches[f.batch].completed_files == s.batches[f.batch].completed_files
                && a.batches[f.batch].roots == s.batches[f.batch].roots
            &&& other != f.batch && s.batches.contains_key(other) ==> a.batches.contains_key(other)
                && a.batches[other] == s.batches[other]
            &&& a.revision == s.revision
        }),
{
}

/// A file that was moved to its place counts as complete in its batch; one that could not
/// be is the error of the batch, and its unfinished file is removed.
pub proof fn law_a_finished_file_counts(
    s: ReceiverState,
    batch: Seq<char>,
    temp: Seq<char>,
    error: Seq<char>,
    now: u64,
)
    requires
        s.batches.contains_key(batch),
        s.batches[batch].completed_files < u32::MAX,
        s.batches[batch].failed is None,
    ensures
        ({
            let done = s.after_finish(batch, None, now);
            let failed = s.after_finish(batch, Some(error), now);
            &&& done.batches[batch].completed_files == s.batches[batch].completed_files + 1
            &&& done.batches[batch].failed is None
            &&& done.batches[batch].received_bytes == s.batches[batch].received_bytes
            &&& failed.batches[batch].completed_files == s.batches[batch].completed_files
            &&& failed.batches[batch].failed == Some(error)
            &&& s.finish_effects(batch, temp, Some(error), now)[0] == EffectView::RemoveFile(temp)
            &&& s.finish_effects(batch, temp, None, now).len() == 1
            &&& s.finish_effects(batch, temp, None, now)[0] matches EffectView::Update(u)
                && u.id == batch && u.files_done == s.batches[batch].completed_files + 1
                && u.transferred == s.batches[batch].received_bytes && u.total
                == s.batches[batch].total_bytes && u.files_total == s.batches[batch].expected_files
                && u.direction == Direction::Receive && u.status == Status::Transferring
        }),
{
}

/// When a piece, a path and the end of a file are accepted, and when not.
pub proof fn law_what_is_accepted(
    s: ReceiverState,
    batch: Seq<char>,
    path: Seq<char>,
    id: Seq<char>,
    seq: u32,
    size: nat,
    f: FileState,
    sha256: Seq<char>,
)
    ensures
        chunk_error(s, id, seq, size) is None <==> s.files.contains_key(id) && s.files[id].next_seq
            == seq && s.files[id].content.len() + size <= s.files[id].expected,
        target_error(s, batch, path) is None <==> !leads_out(BATCH_PATHS, path) && path_names(
            BATCH_PATHS,
            path,
        ).len() > 0 && s.batches.contains_key(batch) && s.batches[batch].roots.contains_key(
            path_names(BATCH_PATHS, path)[0],
        ),
        file_error(f, sha256) is None <==> f.content.len() == f.expected && digest_text(f.content)
            == Some(sha256),
{
}

/// A batch that is complete is handed over in the way it was asked for, with the paths of
/// its roots: to the drag that it belongs to, or else to the clipboard where it may own
/// it. The user is told what came, and the folder of a drag goes later.
pub proof fn law_complete_batches_are_handed_over(s: ReceiverState, id: Seq<char>)
    requires
        s.batches.contains_key(id),
        s.batches[id].failed is None,
        s.batches[id].completed_files == s.batches[id].expected_files,
        s.batches[id].received_bytes == s.batches[id].total_bytes,
    ensures
        ({
            let b = s.batches[id];
            let e = s.batch_end_effects(id);
            let done = EffectView::Update(
                UpdateView {
                    id,
                    direction: Direction::Receive,
                    name: b.title,
                    status: Status::Completed,
                    transferred: b.total_bytes,
                    total: b.total_bytes,
                    files_done: b.expected_files,
                    files_total: b.expected_files,
                    error: None,
                    path: if b.root_paths.len() == 0 {
                        None
                    } else {
                        Some(b.root_paths[0])
                    },
                },
            );
            let told = EffectView::Received { name: b.title, paths: b.root_paths };
            &&& (b.drag_id matches Some(drag) && b.stage is None) ==> e == seq![
                EffectView::CompleteDrag { id: b.drag_id->Some_0, paths: b.root_paths, error: None },
                done,
                told,
            ]
            &&& (b.drag_id is Some && b.stage is Some) ==> e == seq![
                EffectView::CompleteDrag { id: b.drag_id->Some_0, paths: b.root_paths, error: None },
                done,
                told,
                EffectView::RemoveFolderLater(b.stage->Some_0),
            ]
            &&& (b.drag_id is None && b.stage is None && (b.clipboard_id is None || b.clipboard_id
                == s.revision)) ==> e == seq![
                EffectView::WriteClipboardFiles(b.root_paths),
                done,
                told,
            ]
            &&& (b.drag_id is None && b.stage is None && b.clipboard_id is Some && b.clipboard_id
                != s.revision) ==> e == seq![done, told]
            &&& s.batch_end_outcome(id).reply == Some(
                ReplyView::BatchResult { id, error: None, drop_at_cursor: b.drop_at_cursor },
            )
            &&& s.batch_end_outcome(id).effects == e
        }),
{
    let b = s.batches[id];
    let e = s.batch_end_effects(id);
    assert(e =~= e.take(e.len() as int));
    if b.drag_id is Some {
        if b.stage is Some {
            assert(e.len() == 4);
        } else {
            assert(e.len() == 3);
        }
    }
}

/// A batch that is not complete, and one that is given up, leave nothing behind: what was
/// created for them is deleted, and whoever waits for the drag is told why.
pub proof fn law_other_batches_are_cleaned_up(s: ReceiverState, id: Seq<char>, reason: Seq<char>)
    requires
        s.batches.contains_key(id),
    ensures
        batch_error(s.batches[id]) matches Some(why) ==> {
            let b = s.batches[id];
            let e = s.batch_end_effects(id);
            &&& e[0] matches EffectView::Update(u) && u.id == id && u.status == Status::Failed
                && u.error == Some(why) && u.transferred == b.received_bytes && u.total
                == b.total_bytes && u.files_done == b.completed_files
            &&& e[1] == EffectView::CleanUp(b.root_paths)
            &&& b.stage matches Some(folder) ==> e.len() == 3 && e[2] == EffectView::RemoveFolder(
                folder,
            )
            &&& b.stage is None ==> e.len() == 2
        },
        ({
            let b = s.batches[id];
            let e = s.cancel_effects(id, reason);
            let k: int = if b.drag_id is Some { 1 } else { 0 };
            &&& b.drag_id matches Some(drag) ==> e[0] == (EffectView::CompleteDrag {
                id: drag,
                paths: Seq::empty(),
                error: Some(reason),
            })
            &&& e[k] matches EffectView::Update(u) && u.id == id && u.status == Status::Cancelled
                && u.error == Some(reason)
            &&& e[k + 1] == EffectView::CleanUp(b.root_paths)
            &&& b.stage matches Some(folder) ==> e.len() == k + 3 && e[k + 2]
                == EffectView::RemoveFolder(folder)
            &&& b.stage is None ==> e.len() == k + 2
        }),
{
}

/// A file that is given up leaves its own unfinished file to be removed, is the error of
/// its own batch, and no other file is touched.
pub proof fn law_a_file_fails_alone(
    s: ReceiverState,
    id: Seq<char>,
    why: Seq<char>,
    other: Seq<char>,
)
    requires
        s.files.contains_key(id),
    ensures
        !s.file_failed(id, why).files.contains_key(id),
        other != id ==> s.file_failed(id, why).files.contains_key(other) == s.files.contains_key(
            other,
        ),
        s.file_failed_effects(id) == seq![EffectView::RemoveFile(s.files[id].temp)],
        s.batches.contains_key(s.files[id].batch) && s.batches[s.files[id].batch].failed is None
            ==> s.file_failed(id, why).batches[s.files[id].batch].failed == Some(why),
        other != s.files[id].batch && s.batches.contains_key(other) ==> s.file_failed(
            id,
            why,
        ).batches[other] == s.batches[other],
{
}

/// A batch is given up as idle when nothing happened to it for that long, and the
/// progress is reported every 100 ms at most.
pub proof fn law_idle_and_busy_batches(
    s: ReceiverState,
    id: Seq<char>,
    max_age: u64,
    now: u64,
)
    requires
        s.batches.contains_key(id),
        now >= s.batches[id].last_activity,
    ensures
        s.is_stale(id, max_age, now) <==> now - s.batches[id].last_activity >= max_age,
        s.touched(id, now).batches[id].last_activity == now,
        !s.touched(id, now).is_stale(id, 1, now),
        s.reports(id, true, now),
        s.batches[id].last_emit is None ==> s.reports(id, false, now),
        s.batches[id].last_emit matches Some(t) ==> s.reports(id, false, now) == (now - t
            >= 100_000_000),
        s.after_progress(id, true, now).batches[id].last_emit == Some(now),
{
}

/// What each message asks for. A batch has its roots created; a folder or a file that
/// belongs to its batch is created below its root, and one that does not is refused; a
/// piece that may be written is; the end of a batch is answered with what became of it.
/// Everything else is none of the receiver's.
pub proof fn law_what_messages_ask_for(s: ReceiverState, p: Payload, now: u64)
    ensures
        p matches Payload::FileBatchStart { roots, .. } ==> {
            &&& s.message_handling(p, now) matches HandlingView::Reserve { wanted }
            &&& wanted.len() == roots@.len()
            &&& forall|i: int|
                0 <= i < wanted.len() ==> #[trigger] wanted[i] == single_name(
                    s.style,
                    roots@[i].name@,
                )
        },
        p matches Payload::FileDirectory { batch_id, path } ==> (target_error(
            s,
            batch_id@,
            path@,
        ) is Some ==> (s.message_handling(p, now) matches HandlingView::Done(o) && o.reply is None
            && o.effects.len() == 0)),
        p matches Payload::FileStart { id, batch_id, path, size } ==> (target_error(
            s,
            batch_id@,
            path@,
        ) matches Some(e) ==> (s.message_handling(p, now) matches HandlingView::Done(o) && o.reply
            == Some(ReplyView::FileReady { id: id@, error: Some(e) }) && o.effects.len() == 0)),
        p matches Payload::FileChunk { id, seq, data } ==> match chunk_error(
            s,
            id@,
            seq,
            data@.len(),
        ) {
            Some(e) => s.message_handling(p, now) matches HandlingView::Done(o) && o.reply == Some(
                ReplyView::FileResult { id: id@, error: Some(e) },
            ) && o.effects == s.file_failed_effects(id@),
            None => s.message_handling(p, now) is Write,
        },
        p matches Payload::FileEnd { id, sha256 } ==> s.message_handling(p, now) == s.end_handling(
            id@,
            sha256@,
            now,
        ),
        p matches Payload::FileCancel { id } ==> (s.message_handling(p, now) matches
            HandlingView::Done(o) && o.reply is None && o.effects == s.file_failed_effects(id@)),
        p matches Payload::FileBatchEnd { id } ==> (s.message_handling(p, now) matches
            HandlingView::Done(o) && o == s.batch_end_outcome(id@)),
        !(p is FileBatchStart) && !(p is FileDirectory) && !(p is FileStart) && !(p is FileChunk)
            && !(p is FileEnd) && !(p is FileCancel) && !(p is FileBatchEnd) ==> s.message_handling(
            p,
            now,
        ) is NotMine,
{
}

/// What is known after each message: what was refused fails its batch, with the reason; a
/// file that is cancelled or has a bad piece is given up; a batch that ended is forgotten.
/// Nothing else changes anything before the disk has done its part.
pub proof fn law_what_messages_change(s: ReceiverState, p: Payload, now: u64)
    ensures
        p matches Payload::FileDirectory { batch_id, path } ==> match target_error(
            s,
            batch_id@,
            path@,
        ) {
            Some(e) => s.after_message(p, now) == s.batch_failed(batch_id@, e),
            None => s.after_message(p, now) == s,
        },
        p matches Payload::FileChunk { id, seq, data } ==> match chunk_error(
            s,
            id@,
            seq,
            data@.len(),
        ) {
            Some(e) => s.after_message(p, now) == s.file_failed(id@, e),
            None => s.after_message(p, now) == s,
        },
        p matches Payload::FileCancel { id } ==> s.after_message(p, now) == s.file_failed(
            id@,
            "发送端已取消"@,
        ),
        p matches Payload::FileEnd { id, sha256 } ==> s.after_message(p, now) == s.after_end(
            id@,
            sha256@,
            now,
        ),
        p matches Payload::FileBatchEnd { id } ==> {
            &&& !s.after_message(p, now).batches.contains_key(id@)
            &&& s.after_message(p, now).batches == s.batches.remove(id@)
            &&& s.after_message(p, now).files == s.files
        },
        p is FileBatchStart || p is FileStart ==> s.after_message(p, now) == s,
        s.after_message(p, now).revision == s.revision,
        s.after_message(p, now).style == s.style,
{
}

/// The end of a file that is not known, or not whole, is answered with the reason. Its
/// unfinished file is removed, its batch fails and the user sees it.
pub proof fn law_what_a_bad_end_does(s: ReceiverState, id: Seq<char>, sha256: Seq<char>, now: u64)
    ensures
        !s.files.contains_key(id) ==> (s.end_handling(id, sha256, now) matches HandlingView::Done(o)
            && o.reply == Some(
            ReplyView::FileResult { id, error: Some("文件任务不存在或已失败"@) },
        ) && o.effects.len() == 0 && s.after_end(id, sha256, now) == s),
        s.files.contains_key(id) ==> (file_error(s.files[id], sha256) matches Some(e) ==> {
            let f = s.files[id];
            &&& s.end_handling(id, sha256, now) matches HandlingView::Done(o)
            &&& o.reply == Some(ReplyView::FileResult { id, error: Some(e) })
            &&& o.effects[0] == EffectView::RemoveFile(f.temp)
            &&& s.after_end(id, sha256, now).files == s.files.remove(id)
            &&& s.batches.contains_key(f.batch) && s.batches[f.batch].failed is None ==> s.after_end(
                id,
                sha256,
                now,
            ).batches[f.batch].failed == Some(e)
        }),
{
}

/// What is said of a path, a piece, a file or a batch that is refused.
pub proof fn law_what_is_said_of_refusals(
    s: ReceiverState,
    batch: Seq<char>,
    path: Seq<char>,
    id: Seq<char>,
    seq: u32,
    size: nat,
    f: FileState,
    sha256: Seq<char>,
    b: BatchState,
)
    ensures
        leads_out(BATCH_PATHS, path) ==> target_error(s, batch, path) == Some(
            "对端发送了不安全的文件路径"@,
        ),
        !leads_out(BATCH_PATHS, path) && path_names(BATCH_PATHS, path).len() > 0 ==> {
            &&& !s.batches.contains_key(batch) ==> target_error(s, batch, path) == Some(
                "接收批次不存在"@,
            )
            &&& s.batches.contains_key(batch) && !s.batches[batch].roots.contains_key(
                path_names(BATCH_PATHS, path)[0],
            ) ==> target_error(s, batch, path) == Some("文件不属于声明的根目录"@)
        },
        !s.files.contains_key(id) ==> chunk_error(s, id, seq, size) == Some(
            "文件任务不存在或已失败"@,
        ),
        s.files.contains_key(id) && s.files[id].next_seq != seq ==> chunk_error(s, id, seq, size)
            == Some(
            "数据块序号错误，期望 "@ + decimal(s.files[id].next_seq as nat) + "，收到 "@ + decimal(
                seq as nat,
            ),
        ),
        s.files.contains_key(id) && s.files[id].next_seq == seq && s.files[id].content.len() + size
            > s.files[id].expected ==> chunk_error(s, id, seq, size) == Some(
            "收到的数据超过声明大小"@,
        ),
        f.content.len() != f.expected ==> file_error(f, sha256) == Some(
            "文件大小不符：期望 "@ + decimal(f.expected as nat) + "，实际 "@ + decimal(
                f.content.len(),
            ),
        ),
        f.content.len() == f.expected && digest_text(f.content) != Some(sha256) ==> file_error(
            f,
            sha256,
        ) == Some("文件校验失败，内容不完整"@),
        b.failed is Some ==> batch_error(b) == b.failed,
        b.failed is None && b.completed_files != b.expected_files ==> batch_error(b) == Some(
            "文件数量不符：期望 "@ + decimal(b.expected_files as nat) + "，完成 "@ + decimal(
                b.completed_files as nat,
            ),
        ),
        b.failed is None && b.completed_files == b.expected_files && b.received_bytes
            != b.total_bytes ==> batch_error(b) == Some(
            "总大小不符：期望 "@ + decimal(b.total_bytes as nat) + "，收到 "@ + decimal(
                b.received_bytes as nat,
            ),
        ),
        !s.batches.contains_key(id) ==> s.batch_end_reply(id) == (ReplyView::BatchResult {
            id,
            error: Some("接收任务不存在"@),
            drop_at_cursor: false,
        }) && s.batch_end_outcome(id).effects.len() == 0,
{
}

/// An answer names what it answers, says yes exactly where it names no error, and carries
/// the error where there is one.
pub proof fn law_answers_say_yes_without_an_error(p: Payload, v: ReplyView)
    requires
        is_reply(p, v),
    ensures
        v matches ReplyView::BatchReady { id, error } ==> (p matches Payload::FileBatchReady {
            id: i,
            ok,
            error: e,
        } && i@ == id && ok == (error is None) && (error is Some <==> e is Some) && (e matches Some(t)
            ==> error == Some(t@))),
        v matches ReplyView::FileReady { id, error } ==> (p matches Payload::FileReady {
            id: i,
            ok,
            error: e,
        } && i@ == id && ok == (error is None) && (error is Some <==> e is Some) && (e matches Some(t)
            ==> error == Some(t@))),
        v matches ReplyView::FileResult { id, error } ==> (p matches Payload::FileResult {
            id: i,
            ok,
            error: e,
        } && i@ == id && ok == (error is None) && (error is Some <==> e is Some) && (e matches Some(t)
            ==> error == Some(t@))),
        v matches ReplyView::BatchResult { id, error, drop_at_cursor } ==> (p matches
            Payload::FileBatchResult { id: i, ok, error: e, drop_at_cursor: d } && i@ == id && ok == (
        error is None) && d == drop_at_cursor && (error is Some <==> e is Some) && (e matches Some(t)
            ==> error == Some(t@))),
{
}

/// A batch is called by the names of its roots, in their order and with a mark between.
pub proof fn law_batches_are_called_by_their_roots(roots: Seq<TransferRoot>, last: TransferRoot)
    ensures
        title_of(seq![last]) == last.name@,
        roots.len() > 0 ==> title_of(roots.push(last)) == title_of(roots) + "、"@ + last.name@,
{
    let name = |r: TransferRoot| r.name@;
    assert(seq![last].map_values(name) =~= seq![last.name@]);
    assert(roots.push(last).map_values(name) =~= roots.map_values(name).push(last.name@));
    assert(roots.map_values(name).push(last.name@).drop_last() =~= roots.map_values(name));
    reveal_with_fuel(joined, 2);
}

/// A batch that is given up has each of its unfinished files removed, and no others; what
/// is done about the batch itself follows.
pub proof fn law_given_up_batches_leave_no_files(
    s: ReceiverState,
    id: Seq<char>,
    reason: Seq<char>,
    effects: Seq<EffectView>,
    f: Seq<char>,
)
    requires
        s.cancelled_with(id, reason, effects),
        s.files.contains_key(f),
    ensures
        s.files[f].batch == id ==> effects.contains(EffectView::RemoveFile(s.files[f].temp)),
        forall|k: int|
            #![trigger effects[k]]
            0 <= k < effects.len() - s.cancel_effects(id, reason).len() ==> exists|g: Seq<char>| #[trigger]
                s.files.contains_key(g) && s.files[g].batch == id && effects[k]
                    == EffectView::RemoveFile(s.files[g].temp),
        effects.skip(effects.len() - s.cancel_effects(id, reason).len()) == s.cancel_effects(
            id,
            reason,
        ),
{
    let ids = choose|ids: Seq<Seq<char>>| #[trigger]
        is_listing(ids, s.files_of(id)) && effects == s.removals(ids) + s.cancel_effects(id, reason);
    if s.files[f].batch == id {
        assert(s.files_of(id).contains(f));
        assert(ids.to_set().contains(f));
        let k = ids.index_of(f);
        assert(effects[k] == EffectView::RemoveFile(s.files[f].temp));
    }
    let n = effects.len() - s.cancel_effects(id, reason).len();
    assert forall|k: int| #![trigger effects[k]] 0 <= k < n implies exists|g: Seq<char>| #[trigger]
        s.files.contains_key(g) && s.files[g].batch == id && effects[k] == EffectView::RemoveFile(
            s.files[g].temp,
        ) by {
        let g = ids[k];
        assert(ids.contains(g));
        assert(ids.to_set().contains(g));
        assert(s.files_of(id).contains(g));
        assert(s.files.contains_key(g));
    }
    assert(effects.skip(n) =~= s.cancel_effects(id, reason));
}

/// Batches that were idle too long are given up, each once and with its reason, and all
/// others stay as they were.
pub proof fn law_idle_batches_are_given_up(
    states: Seq<ReceiverState>,
    ids: Seq<Seq<char>>,
    parts: Seq<Seq<EffectView>>,
    max_age: u64,
    now: u64,
    x: Seq<char>,
)
    requires
        given_up(states, ids, parts),
        stale_listing(states[0], ids, max_age, now),
        states[0].batches.contains_key(x),
        states[0].batches[x].last_activity <= now,
    ensures
        now - states[0].batches[x].last_activity < max_age ==> states.last().batches.contains_key(x)
            && states.last().batches[x] == states[0].batches[x],
        now - states[0].batches[x].last_activity >= max_age ==> !states.last().batches.contains_key(
            x,
        ),
        forall|i: int|
            0 <= i < ids.len() ==> states[i].cancelled_with(
                #[trigger] ids[i],
                "传输超时，已清理临时文件"@,
                parts[i],
            ),
{
    if now - states[0].batches[x].last_activity < max_age {
        assert(!ids.contains(x));
        lemma_given_up_keeps_others(states, ids, parts, x, ids.len() as int);
    } else {
        assert(ids.contains(x));
        let k = ids.index_of(x);
        lemma_given_up_stays(states, ids, parts, x, k, ids.len() as int);
    }
    assert forall|i: int| 0 <= i < ids.len() implies states[i].cancelled_with(
        #[trigger] ids[i],
        "传输超时，已清理临时文件"@,
        parts[i],
    ) by {
        assert(gives_up(states[i], ids[i], parts[i], states[i + 1]));
    }
}

proof fn lemma_given_up_stays(
    states: Seq<ReceiverState>,
    ids: Seq<Seq<char>>,
    parts: Seq<Seq<EffectView>>,
    x: Seq<char>,
    k: int,
    n: int,
)
    requires
        given_up(states, ids, parts),
        0 <= k < n <= ids.len(),
        ids[k] == x,
    ensures
        !states[n].batches.contains_key(x),
    decreases n,
{
    assert(gives_up(states[n - 1], ids[n - 1], parts[n - 1], states[n]));
    if k < n - 1 {
        lemma_given_up_stays(states, ids, parts, x, k, n - 1);
    }
}

/// What is to be done on the disk, and what is answered, is what was decided.
pub proof fn law_handlings_mean_what_they_say(h: Handling, v: HandlingView, i: int)
    requires
        h.shows(v),
    ensures
        v is NotMine ==> h is NotMine,
        v is Write ==> h is Write,
        v matches HandlingView::Done(o) ==> (h matches Handling::Done(d) && d.shows(o)),
        v matches HandlingView::Reserve { wanted: w } ==> (h matches Handling::Reserve { wanted }
            && wanted@.len() == w.len() && (0 <= i < w.len() ==> (wanted@[i] matches Some(t) ==> w[i]
            == Some(t@)) && (wanted@[i] is None ==> w[i] is None))),
        v matches HandlingView::MakeFolder { root: r, names: n } ==> (h matches
            Handling::MakeFolder { root, names } && root@ == r && names@.len() == n.len() && (0 <= i
            < n.len() ==> names@[i]@ == n[i])),
        v matches HandlingView::OpenTemp { root: r, names: n } ==> (h matches Handling::OpenTemp {
            root,
            names,
        } && root@ == r && names@.len() == n.len() && (0 <= i < n.len() ==> names@[i]@ == n[i])),
        v matches HandlingView::Finish { batch: b, temp: t, target: g } ==> (h matches
            Handling::Finish { batch_id, temp, target } && batch_id@ == b && temp@ == t && target@
            == g),
{
    if let HandlingView::Reserve { wanted: w } = v {
        let wanted = h->wanted;
        let views = wanted@.map_values(|o: Option<String>| opt_text(o));
        if 0 <= i < w.len() {
            assert(views[i] == opt_text(wanted@[i]));
        }
    }
    if let HandlingView::MakeFolder { root: r, names: n } = v {
        if 0 <= i < n.len() {
            assert(texts(h->MakeFolder_names@)[i] == h->MakeFolder_names@[i]@);
        }
    }
    if let HandlingView::OpenTemp { root: r, names: n } = v {
        if 0 <= i < n.len() {
            assert(texts(h->OpenTemp_names@)[i] == h->OpenTemp_names@[i]@);
        }
    }
}

/// An outcome holds the answer that was decided on, if there is one, and the effects in
/// their order.
pub proof fn law_outcomes_mean_what_they_say(o: Outcome, v: OutcomeView)
    requires
        o.shows(v),
    ensures
        v.reply is None <==> o.reply is None,
        v.reply matches Some(r) ==> is_reply(o.reply->0, r),
        o.effects@.len() == v.effects.len(),
        forall|i: int| 0 <= i < v.effects.len() ==> #[trigger] v.effects[i] == o.effects@[i]@,
{
}

/// What comes of the work on the disk. A folder or a file that could not be had fails its
/// batch, with the reason, and one that could keeps it alive. A piece that was written is
/// not answered, and one that was not ends its file. A file that is in its place counts
/// and is confirmed; one that could not be put there is removed.
pub proof fn law_what_comes_of_the_disk(
    s: ReceiverState,
    id: Seq<char>,
    batch: Seq<char>,
    temp: Seq<char>,
    data: Seq<u8>,
    error: Seq<char>,
    now: u64,
)
    requires
        s.files.contains_key(id),
        s.files[id].batch == batch,
        s.batches.contains_key(batch),
        s.batches[batch].failed is None,
        s.batches[batch].completed_files < u32::MAX,
    ensures
        s.folder_done(batch, None, now).batches[batch].last_activity == now,
        s.folder_done(batch, None, now).batches[batch].failed is None,
        s.folder_done(batch, Some(error), now).batches[batch].failed == Some(error),
        s.chunk_done(id, data, None, now).1.reply is None,
        s.chunk_done(id, data, None, now).0.files[id].content == s.files[id].content + data,
        s.chunk_done(id, data, None, now).0.batches[batch].failed is None,
        !s.chunk_done(id, data, Some(error), now).0.files.contains_key(id),
        s.chunk_done(id, data, Some(error), now).0.batches[batch].failed == Some(error),
        s.chunk_done(id, data, Some(error), now).1.reply == Some(
            ReplyView::FileResult { id, error: Some(error) },
        ),
        s.chunk_done(id, data, Some(error), now).1.effects == seq![
            EffectView::RemoveFile(s.files[id].temp),
        ],
        s.move_done(id, batch, temp, None, now).1.reply == Some(
            ReplyView::FileResult { id, error: None },
        ),
        s.move_done(id, batch, temp, None, now).0.batches[batch].completed_files
            == s.batches[batch].completed_files + 1,
        s.move_done(id, batch, temp, None, now).0.batches[batch].failed is None,
        s.move_done(id, batch, temp, Some(error), now).1.reply == Some(
            ReplyView::FileResult { id, error: Some(error) },
        ),
        s.move_done(id, batch, temp, Some(error), now).0.batches[batch].failed == Some(error),
        s.move_done(id, batch, temp, Some(error), now).0.batches[batch].completed_files
            == s.batches[batch].completed_files,
        s.move_done(id, batch, temp, Some(error), now).1.effects[0] == EffectView::RemoveFile(temp),
{
}

/// The progress of a batch is reported as it is: what has arrived of what was announced.
pub proof fn law_progress_is_reported_as_it_is(s: ReceiverState, id: Seq<char>, now: u64)
    requires
        s.batches.contains_key(id),
    ensures
        s.progress_effects(id, true, now).len() == 1,
        s.progress_effects(id, true, now)[0] matches EffectView::Update(u) && u.id == id
            && u.direction == Direction::Receive && u.name == s.batches[id].title && u.status
            == Status::Transferring && u.transferred == s.batches[id].received_bytes && u.total
            == s.batches[id].total_bytes && u.files_done == s.batches[id].completed_files
            && u.files_total == s.batches[id].expected_files && u.error is None && u.path is None,
        s.reports(id, false, now) ==> s.progress_effects(id, false, now) == s.progress_effects(
            id,
            true,
            now,
        ),
        !s.reports(id, false, now) ==> s.progress_effects(id, false, now).len() == 0
            && s.after_progress(id, false, now) == s,
        s.after_progress(id, true, now).batches[id].received_bytes == s.batches[id].received_bytes,
        s.after_progress(id, true, now).files == s.files,
{
}

} // verus!
