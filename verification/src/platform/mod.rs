//! What the two operating systems have in common, and what is particular to each.

use vstd::prelude::*;

use crate::text::{opt_text, texts};

pub mod keyboard;
pub mod mac;
pub mod win;

verus! {

/// What a file drag that came from the peer asks for.
#[derive(Debug, Clone)]
pub enum RemoteFileDragEvent {
    /// The files of this drag are wanted: it was dropped somewhere.
    DataRequested(String),
    /// This drag was given up.
    Cancelled(String),
}

/// Files that the peer offered were pasted: the offer with this id is wanted.
#[derive(Debug, Clone)]
pub enum ClipboardPasteEvent {
    Requested { id: String },
}

/// How long a paste waits for the peer's files, in nanoseconds.
pub const PASTE_TIMEOUT: u64 = 180_000_000_000;

/// How long a paste waits before it looks again, in nanoseconds.
pub const PASTE_POLL: u64 = 500_000_000;

/// Where the result of a paste is put: the paths of the files, or an error.
#[derive(Debug)]
pub struct PasteReady {
    pub result: Option<Result<Vec<String>, String>>,
}

/// A paste whose files were asked for.
pub fn new_paste_ready() -> (ready: PasteReady)
    ensures
        ready.result is None,
{
    PasteReady { result: None }
}

/// What a paste that took too long is told.
pub open spec fn paste_timeout_text() -> Seq<char> {
    "等待对端文件传输超时"@
}

/// Looks whether a paste is done, and takes its result. `timed_out` says that it
/// waited and that its time is over: then nothing that comes is taken any more.
/// `None` means to go on waiting.
pub fn wait_paste_ready(ready: &mut PasteReady, timed_out: bool) -> (r: Option<
    Result<Vec<String>, String>,
>)
    ensures
        timed_out ==> {
            &&& r matches Some(Err(e)) && e@ == paste_timeout_text()
            &&& *final(ready) == *old(ready)
        },
        !timed_out ==> r == old(ready).result && final(ready).result is None,
{
    if timed_out {
        Some(Err("等待对端文件传输超时".to_owned()))
    } else {
        ready.result.take()
    }
}

/// Ends a paste: its result is there.
pub fn complete_paste_ready(ready: &mut PasteReady, result: Result<Vec<String>, String>)
    ensures
        final(ready).result == Some(result),
{
    ready.result = Some(result);
}

/// What is on a clipboard.
#[derive(Debug, Clone)]
pub enum ClipboardContent {
    Empty,
    Text(String),
    /// A PNG.
    Image(Vec<u8>),
    /// Absolute paths.
    Files(Vec<String>),
}

impl ClipboardContent {
    /// Whether nothing that can be shared is on the clipboard.
    pub fn is_empty(&self) -> (r: bool)
        ensures
            r == (self is Empty),
    {
        match self {
            ClipboardContent::Empty => true,
            _ => false,
        }
    }
}

/// What is on a clipboard.
pub enum ContentView {
    Empty,
    Text(Seq<char>),
    Image(Seq<u8>),
    Files(Seq<Seq<char>>),
}

impl View for ClipboardContent {
    type V = ContentView;

    open spec fn view(&self) -> ContentView {
        match self {
            ClipboardContent::Empty => ContentView::Empty,
            ClipboardContent::Text(t) => ContentView::Text(t@),
            ClipboardContent::Image(i) => ContentView::Image(i@),
            ClipboardContent::Files(f) => ContentView::Files(texts(f@)),
        }
    }
}

/// What counts as the content of a clipboard that holds several things: files before
/// an image, and an image before text.
pub open spec fn preferred(
    files: Option<Seq<Seq<char>>>,
    image: Option<Seq<u8>>,
    text: Option<Seq<char>>,
) -> ContentView {
    match (files, image, text) {
        (Some(f), _, _) if f.len() > 0 => ContentView::Files(f),
        (_, Some(i), _) => ContentView::Image(i),
        (_, _, Some(t)) => ContentView::Text(t),
        _ => ContentView::Empty,
    }
}

/// The bytes that may be there.
pub open spec fn opt_bytes(o: Option<Vec<u8>>) -> Option<Seq<u8>> {
    match o {
        Some(v) => Some(v@),
        None => None,
    }
}

/// The texts that may be there.
pub open spec fn opt_texts(o: Option<Vec<String>>) -> Option<Seq<Seq<char>>> {
    match o {
        Some(v) => Some(texts(v@)),
        None => None,
    }
}

/// What counts as the content of a clipboard that holds several things.
pub fn preferred_content(
    files: Option<Vec<String>>,
    image: Option<Vec<u8>>,
    text: Option<String>,
) -> (content: ClipboardContent)
    ensures
        content@ == preferred(opt_texts(files), opt_bytes(image), opt_text(text)),
{
    match files {
        Some(f) => {
            if f.len() > 0 {
                return ClipboardContent::Files(f);
            }
        },
        None => {},
    }
    match (image, text) {
        (Some(i), _) => ClipboardContent::Image(i),
        (None, Some(t)) => ClipboardContent::Text(t),
        (None, None) => ClipboardContent::Empty,
    }
}

/// A watcher of the clipboard that runs until it is stopped.
#[derive(Debug)]
pub struct ClipboardWatcherHandle {
    pub running: bool,
}

impl ClipboardWatcherHandle {
    /// A watcher that was started.
    pub fn started() -> (h: Self)
        ensures
            h.running,
    {
        ClipboardWatcherHandle { running: true }
    }

    /// Stops the watcher. Returns whether it has to be told: only the first time.
    pub fn stop(&mut self) -> (tell: bool)
        ensures
            tell == old(self).running,
            !final(self).running,
    {
        let tell = self.running;
        self.running = false;
        tell
    }
}

/// Of several things on a clipboard files count before a picture, and a picture before a
/// text; an empty list of files counts for nothing.
pub proof fn law_files_before_pictures_before_text(
    files: Seq<Seq<char>>,
    image: Seq<u8>,
    text: Seq<char>,
    any_files: Option<Seq<Seq<char>>>,
    any_image: Option<Seq<u8>>,
    any_text: Option<Seq<char>>,
)
    requires
        files.len() > 0,
        any_files is None || any_files->0.len() == 0,
    ensures
        preferred(Some(files), any_image, any_text) == ContentView::Files(files),
        preferred(any_files, Some(image), any_text) == ContentView::Image(image),
        preferred(any_files, None, Some(text)) == ContentView::Text(text),
        preferred(any_files, None, None) == ContentView::Empty,
{
}

/// A paste waits three minutes for the peer's files and looks twice a second.
pub proof fn law_how_long_a_paste_waits()
    ensures
        PASTE_TIMEOUT == 3 * 60 * 1_000_000_000,
        2 * PASTE_POLL == 1_000_000_000,
{
}

} // verus!
