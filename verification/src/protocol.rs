//! The messages that the two machines exchange.

use vstd::prelude::*;

use crate::keys::{Key, NativeShortcut};

verus! {

/// A file or folder at the top of a batch.
#[derive(Debug, Clone, PartialEq)]
pub struct TransferRoot {
    pub name: String,
    pub is_dir: bool,
}

/// What a message is about.
#[derive(Debug, Clone, Copy, PartialEq, Eq, Structural)]
pub enum MsgKind {
    /// Keyboard and mouse events, injected by the receiver.
    Event,
    /// Clipboard contents and files.
    Clipboard,
    /// Heartbeats and the passing of control.
    Ctrl,
}

/// One message on the wire.
#[derive(Debug, Clone)]
pub struct Message {
    pub kind: MsgKind,
    /// The name of the sending machine.
    pub from: String,
    pub payload: Payload,
}

/// The contents of a message.
#[allow(inconsistent_fields)]
#[derive(Debug, Clone, PartialEq)]
pub enum Payload {
    /// The mouse is at `(x, y)` of a screen of `src_w` by `src_h` pixels; the
    /// receiver scales the point to its own screen.
    MouseMove { x: i32, y: i32, src_w: u32, src_h: u32 },
    /// The mouse moved by `(dx, dy)`.
    MouseMoveRelative { dx: i32, dy: i32 },
    /// A `MouseMove` of the round `session`; `seq` grows within a round, so
    /// that the receiver can refuse old rounds and late frames.
    PointerMove { session: u64, seq: u64, x: i32, y: i32, src_w: u32, src_h: u32 },
    /// A `MouseMoveRelative` of the round `session`. Frames of one round that
    /// wait to be sent are added up.
    PointerMoveRelative { session: u64, seq: u64, dx: i32, dy: i32 },
    /// Button 0 is the left one, 1 the right one, 2 the middle one, 3 and 4 are
    /// back and forward.
    MouseButton { button: u8, down: bool },
    /// Wheel notches; `dy > 0` scrolls up.
    MouseWheel { dx: i32, dy: i32 },
    /// A key. `scan` and `extended` are Windows details, zero and false
    /// elsewhere.
    Key { key: Key, scan: u16, extended: bool, down: bool },
    /// A whole shortcut in the terms of the receiving machine.
    Shortcut { shortcut: NativeShortcut },
    ClipboardText { id: String, text: String },
    ClipboardImage { id: String, png: Vec<u8> },
    /// The clipboard holds something that is not shared: what was shared
    /// before is no longer current.
    ClipboardClear,
    /// Files were copied; they follow as a batch with this revision.
    ClipboardFileOffer { id: String },
    /// Files were copied that both machines can reach under these paths.
    ClipboardFiles { id: String, paths: Vec<String> },
    Heartbeat { seq: u64 },
    /// The sender takes control: the receiver becomes the sink and puts its
    /// cursor at `(x, y)`, scaled from `src_w` by `src_h`.
    TakeControl { session: u64, x: i32, y: i32, src_w: u32, src_h: u32 },
    /// The receiver has become the sink of this round. Before this the source
    /// holds back its pointer frames.
    ControlReady { session: u64 },
    /// The sender gives control back.
    ReleaseControl { session: u64 },
    /// A batch of files and folders: what it holds and how much.
    FileBatchStart {
        id: String,
        roots: Vec<TransferRoot>,
        total_files: u32,
        total_bytes: u64,
        drop_at_cursor: bool,
        drag_id: Option<String>,
        clipboard_id: Option<String>,
    },
    FileBatchReady { id: String, ok: bool, error: Option<String> },
    FileDirectory { batch_id: String, path: String },
    FileStart { id: String, batch_id: String, path: String, size: u64 },
    FileReady { id: String, ok: bool, error: Option<String> },
    /// A piece of a file; `seq` counts from zero.
    FileChunk { id: String, seq: u32, data: Vec<u8> },
    /// The end of a file, with the digest of its contents.
    FileEnd { id: String, sha256: String },
    FileCancel { id: String },
    FileBatchEnd { id: String },
    FileBatchCancel { id: String },
    FileResult { id: String, ok: bool, error: Option<String> },
    FileBatchResult { id: String, ok: bool, error: Option<String>, drop_at_cursor: bool },
    /// What a drag that crosses the screen edge carries.
    DragOffer { drag: bool, has_text: bool, has_image: bool, has_files: bool },
    /// A file drag crossed the screen edge; the bytes follow on request.
    DragStart { id: String, roots: Vec<TransferRoot> },
    /// The files of a drag are wanted.
    DragCommit { id: String },
    /// A drag was given up.
    DragCancel { id: String },
}

impl Message {
    /// A keyboard or mouse event.
    pub fn event(from: &str, payload: Payload) -> (m: Self)
        ensures
            m.kind == MsgKind::Event,
            m.from@ == from@,
            m.payload == payload,
    {
        Message { kind: MsgKind::Event, from: from.to_owned(), payload }
    }

    /// Clipboard contents or a part of a file transfer.
    pub fn clipboard(from: &str, payload: Payload) -> (m: Self)
        ensures
            m.kind == MsgKind::Clipboard,
            m.from@ == from@,
            m.payload == payload,
    {
        Message { kind: MsgKind::Clipboard, from: from.to_owned(), payload }
    }

    /// A control message.
    pub fn ctrl(from: &str, payload: Payload) -> (m: Self)
        ensures
            m.kind == MsgKind::Ctrl,
            m.from@ == from@,
            m.payload == payload,
    {
        Message { kind: MsgKind::Ctrl, from: from.to_owned(), payload }
    }
}

/// Whether a payload belongs to a file transfer or to a cross-screen drag.
pub open spec fn file_payload(p: Payload) -> bool {
    match p {
        Payload::FileBatchStart { .. } => true,
        Payload::FileBatchReady { .. } => true,
        Payload::FileDirectory { .. } => true,
        Payload::FileStart { .. } => true,
        Payload::FileReady { .. } => true,
        Payload::FileChunk { .. } => true,
        Payload::FileEnd { .. } => true,
        Payload::FileCancel { .. } => true,
        Payload::FileBatchEnd { .. } => true,
        Payload::FileBatchCancel { .. } => true,
        Payload::FileResult { .. } => true,
        Payload::FileBatchResult { .. } => true,
        Payload::DragStart { .. } => true,
        Payload::DragCommit { .. } => true,
        Payload::DragCancel { .. } => true,
        _ => false,
    }
}

/// Whether a payload goes to the file queue rather than to the queue of
/// keyboard, mouse and control events.
pub fn is_file_payload(payload: &Payload) -> (r: bool)
    ensures
        r == file_payload(*payload),
{
    matches!(
        payload,
        Payload::FileBatchStart { .. }
            | Payload::FileBatchReady { .. }
            | Payload::FileDirectory { .. }
            | Payload::FileStart { .. }
            | Payload::FileReady { .. }
            | Payload::FileChunk { .. }
            | Payload::FileEnd { .. }
            | Payload::FileCancel { .. }
            | Payload::FileBatchEnd { .. }
            | Payload::FileBatchCancel { .. }
            | Payload::FileResult { .. }
            | Payload::FileBatchResult { .. }
            | Payload::DragStart { .. }
            | Payload::DragCommit { .. }
            | Payload::DragCancel { .. }
    )
}

/// The queue of files takes what belongs to a transfer or to a drag that carries files.
/// Everything that plays input, shares a clipboard or passes control goes by the other
/// queue, and so does the bare announcement of what a drag carries.
pub proof fn law_which_payloads_are_of_files(p: Payload)
    ensures
        p is FileBatchStart || p is FileBatchReady || p is FileDirectory || p is FileStart || p
            is FileReady || p is FileChunk || p is FileEnd || p is FileCancel || p is FileBatchEnd
            || p is FileBatchCancel || p is FileResult || p is FileBatchResult || p is DragStart
            || p is DragCommit || p is DragCancel ==> file_payload(p),
        p is MouseMove || p is MouseMoveRelative || p is PointerMove || p is PointerMoveRelative
            || p is MouseButton || p is MouseWheel || p is Key || p is Shortcut || p
            is ClipboardText || p is ClipboardImage || p is ClipboardClear || p
            is ClipboardFileOffer || p is ClipboardFiles || p is Heartbeat || p is TakeControl
            || p is ControlReady || p is ReleaseControl || p is DragOffer ==> !file_payload(p),
{
}

} // verus!
