//! Keeping the clipboards of the two machines the same.

use vstd::prelude::*;
use vstd::slice::slice_to_vec;

use crate::file_transfer::receiver::{FileReceiver, ReceiverState};
use crate::file_transfer::sender::{send_error, BooksState, Enqueued, FileSender};
use crate::ids::{fresh_id, is_id};
use crate::protocol::Payload;
use crate::text::{copy_texts, texts};

verus! {

/// What to write to the local clipboard.
#[derive(Debug, Clone, PartialEq)]
pub enum ClipboardWrite {
    Text(String),
    /// A PNG.
    Image(Vec<u8>),
    /// Paths of files.
    Files(Vec<String>),
    Clear,
    Nothing,
}

/// What to write to the local clipboard.
pub enum WriteView {
    Text(Seq<char>),
    Image(Seq<u8>),
    Files(Seq<Seq<char>>),
    Clear,
    Nothing,
}

impl View for ClipboardWrite {
    type V = WriteView;

    open spec fn view(&self) -> WriteView {
        match self {
            ClipboardWrite::Text(t) => WriteView::Text(t@),
            ClipboardWrite::Image(i) => WriteView::Image(i@),
            ClipboardWrite::Files(f) => WriteView::Files(texts(f@)),
            ClipboardWrite::Clear => WriteView::Clear,
            ClipboardWrite::Nothing => WriteView::Nothing,
        }
    }
}

/// What the local clipboard holds after the peer's clipboard changed.
pub open spec fn remote_write(p: Payload) -> WriteView {
    match p {
        Payload::ClipboardText { id: _, text } => WriteView::Text(text@),
        Payload::ClipboardImage { id: _, png } => WriteView::Image(png@),
        Payload::ClipboardFileOffer { .. } => WriteView::Clear,
        Payload::ClipboardClear => WriteView::Clear,
        Payload::ClipboardFiles { id: _, paths } => if paths@.len() > 0 {
            WriteView::Files(texts(paths@))
        } else {
            WriteView::Nothing
        },
        _ => WriteView::Nothing,
    }
}

/// The revision with the identifier `id`; an empty one stands for none.
pub open spec fn revision_named(id: Seq<char>) -> Option<Seq<char>> {
    if id.len() == 0 { None } else { Some(id) }
}

/// Which revision is the current one after the peer's clipboard changed, when it was
/// `current`: files that are still to come belong to it.
pub open spec fn remote_revision(p: Payload, current: Option<Seq<char>>) -> Option<Seq<char>> {
    match p {
        Payload::ClipboardText { id, .. } => revision_named(id@),
        Payload::ClipboardImage { id, .. } => revision_named(id@),
        Payload::ClipboardFileOffer { id } => Some(id@),
        Payload::ClipboardClear => None,
        Payload::ClipboardFiles { id, paths } => if paths@.len() > 0 {
            revision_named(id@)
        } else {
            current
        },
        _ => current,
    }
}

fn begin_revision(receiver: &mut FileReceiver, id: &str)
    requires
        old(receiver).wf(),
    ensures
        final(receiver).wf(),
        final(receiver)@ == (ReceiverState { revision: revision_named(id@), ..old(receiver)@ }),
{
    if id.is_empty() {
        receiver.invalidate_clipboard_revision();
    } else {
        let _ = receiver.begin_clipboard_revision(id);
    }
}

/// The peer's clipboard changed. Returns what to write to the local one. Whatever was
/// still on its way from an earlier copy no longer counts.
pub fn handle_remote(payload: &Payload, receiver: &mut FileReceiver) -> (write: ClipboardWrite)
    requires
        old(receiver).wf(),
    ensures
        final(receiver).wf(),
        write@ == remote_write(*payload),
        final(receiver)@ == (ReceiverState {
            revision: remote_revision(*payload, old(receiver)@.revision),
            ..old(receiver)@
        }),
{
    match payload {
        Payload::ClipboardText { id, text } => {
            begin_revision(receiver, id);
            ClipboardWrite::Text(text.clone())
        },
        Payload::ClipboardImage { id, png } => {
            begin_revision(receiver, id);
            ClipboardWrite::Image(slice_to_vec(png))
        },
        Payload::ClipboardFileOffer { id } => {
            let _ = receiver.begin_clipboard_revision(id);
            ClipboardWrite::Clear
        },
        Payload::ClipboardClear => {
            receiver.invalidate_clipboard_revision();
            ClipboardWrite::Clear
        },
        Payload::ClipboardFiles { id, paths } => {
            if paths.len() > 0 {
                begin_revision(receiver, id);
                let files = copy_texts(paths);
                assert(texts(files@) =~= texts(paths@));
                ClipboardWrite::Files(files)
            } else {
                ClipboardWrite::Nothing
            }
        },
        _ => ClipboardWrite::Nothing,
    }
}

/// What was copied on this machine. Files are those that exist.
#[derive(Debug)]
pub enum LocalContent<P> {
    Empty,
    Text(String),
    /// A PNG.
    Image(Vec<u8>),
    Files(Vec<P>),
}

/// What to tell the peer when something was copied on this machine.
pub struct CopyOutcome {
    /// Files of an earlier copy are no longer sent.
    pub cancel: Option<Payload>,
    /// What was copied.
    pub share: Option<Payload>,
    /// The files that follow, or why they cannot be sent.
    pub files: Option<Result<Enqueued, String>>,
}

/// Whether `p` tells the peer under the identifier `id` what was copied.
pub open spec fn shares<P>(content: LocalContent<P>, id: Seq<char>, p: Option<Payload>) -> bool {
    match content {
        LocalContent::Empty => p is None,
        LocalContent::Text(text) => if text@.len() == 0 {
            p is None
        } else {
            p matches Some(Payload::ClipboardText { id: i, text: t }) && i@ == id && t == text
        },
        LocalContent::Image(png) => if png@.len() == 0 {
            p is None
        } else {
            p matches Some(Payload::ClipboardImage { id: i, png: b }) && i@ == id && b == png
        },
        LocalContent::Files(paths) => if paths@.len() == 0 {
            p is None
        } else {
            p matches Some(Payload::ClipboardFileOffer { id: i }) && i@ == id
        },
    }
}

/// The sender's books after an earlier copy of files was broken off.
pub open spec fn without_copy<P>(books: BooksState<P>) -> BooksState<P> {
    match books.clipboard_batch {
        Some(id) => BooksState {
            cancelled: books.cancelled.insert(id),
            clipboard_batch: None,
            ..books
        },
        None => books,
    }
}

/// Whether files that were copied are sent as the revision `id`.
pub open spec fn sends_files<P>(
    content: LocalContent<P>,
    id: Seq<char>,
    connected: bool,
    before: BooksState<P>,
    after: BooksState<P>,
    files: Option<Result<Enqueued, String>>,
) -> bool {
    match content {
        LocalContent::Files(paths) if paths@.len() > 0 => match send_error(paths@.len(), connected) {
            Some(e) => after == before && (files matches Some(Err(t)) && t@ == e),
            None => files matches Some(Ok(q)) && is_id(q.id@) && q.is_for(
                q.id@,
                false,
                None,
                Some(id),
            ) && after == (BooksState {
                clipboard_batch: Some(q.id@),
                ..before.enqueued(q.id@, paths@)
            }),
        },
        _ => after == before && files is None,
    }
}

/// Something was copied on this machine, under the revision `id`. What is still on
/// its way from the peer, or to it, from an earlier copy is broken off.
pub fn local_copy_with_id<P>(
    receiver: &mut FileReceiver,
    sender: &mut FileSender<P>,
    content: LocalContent<P>,
    id: String,
    connected: bool,
) -> (outcome: CopyOutcome)
    requires
        old(receiver).wf(),
        old(sender).wf(),
    ensures
        final(receiver).wf(),
        final(receiver)@ == (ReceiverState { revision: None, ..old(receiver)@ }),
        final(sender).wf(),
        match old(sender)@.clipboard_batch {
            Some(b) => outcome.cancel matches Some(Payload::FileBatchCancel { id: i }) && i@ == b,
            None => outcome.cancel is None,
        },
        shares(content, id@, outcome.share),
        sends_files(
            content,
            id@,
            connected,
            without_copy(old(sender)@),
            final(sender)@,
            outcome.files,
        ),
{
    receiver.invalidate_clipboard_revision();
    let cancel = sender.cancel_clipboard_transfer();
    match content {
        LocalContent::Empty => CopyOutcome { cancel, share: None, files: None },
        LocalContent::Text(text) => {
            if text.as_str().is_empty() {
                CopyOutcome { cancel, share: None, files: None }
            } else {
                CopyOutcome { cancel, share: Some(Payload::ClipboardText { id, text }), files: None }
            }
        },
        LocalContent::Image(png) => {
            if png.len() == 0 {
                CopyOutcome { cancel, share: None, files: None }
            } else {
                CopyOutcome { cancel, share: Some(Payload::ClipboardImage { id, png }), files: None }
            }
        },
        LocalContent::Files(paths) => {
            if paths.len() == 0 {
                CopyOutcome { cancel, share: None, files: None }
            } else {
                let share = Payload::ClipboardFileOffer { id: id.clone() };
                let files = sender.send_clipboard_paths(id, paths, connected);
                CopyOutcome { cancel, share: Some(share), files: Some(files) }
            }
        },
    }
}

/// Something was copied on this machine: it gets an identifier of its own.
pub fn local_copy<P>(
    receiver: &mut FileReceiver,
    sender: &mut FileSender<P>,
    content: LocalContent<P>,
    connected: bool,
) -> (outcome: CopyOutcome)
    requires
        old(receiver).wf(),
        old(sender).wf(),
    ensures
        final(receiver).wf(),
        final(receiver)@ == (ReceiverState { revision: None, ..old(receiver)@ }),
        final(sender).wf(),
        match old(sender)@.clipboard_batch {
            Some(b) => outcome.cancel matches Some(Payload::FileBatchCancel { id: i }) && i@ == b,
            None => outcome.cancel is None,
        },
        exists|id: Seq<char>| #[trigger]
            is_id(id) && shares(content, id, outcome.share) && sends_files(
                content,
                id,
                connected,
                without_copy(old(sender)@),
                final(sender)@,
                outcome.files,
            ),
{
    let id = fresh_id();
    let ghost name = id@;
    let outcome = local_copy_with_id(receiver, sender, content, id, connected);
    assert(is_id(name));
    outcome
}

/// Once the peer copied something, it does not matter any more what was copied
/// before: no file of an earlier copy may take the clipboard.
pub proof fn law_earlier_copies_no_longer_count(
    p: Payload,
    earlier: Option<Seq<char>>,
    other: Option<Seq<char>>,
)
    requires
        remote_write(p) != WriteView::Nothing,
    ensures
        remote_revision(p, earlier) == remote_revision(p, other),
{
}

/// What is shared on one machine is what is written on the other.
pub proof fn law_copy_reaches_the_peer<P>(content: LocalContent<P>, id: Seq<char>, p: Payload)
    requires
        shares(content, id, Some(p)),
    ensures
        match content {
            LocalContent::Text(text) => remote_write(p) == WriteView::Text(text@),
            LocalContent::Image(png) => remote_write(p) == WriteView::Image(png@),
            LocalContent::Files(_) => remote_write(p) == WriteView::Clear,
            LocalContent::Empty => false,
        },
        id.len() > 0 ==> remote_revision(p, None) == Some(id),
{
}

/// What the peer copied is written as it came: a text as that text, a picture as that
/// picture, files that both reach as their paths. Files that are still to come, and
/// contents that are not shared, empty the clipboard. Nothing else touches it.
pub proof fn law_clipboard_takes_what_the_peer_copied(p: Payload)
    ensures
        p matches Payload::ClipboardText { text, .. } ==> remote_write(p) == WriteView::Text(text@),
        p matches Payload::ClipboardImage { png, .. } ==> remote_write(p) == WriteView::Image(png@),
        p is ClipboardFileOffer || p is ClipboardClear ==> remote_write(p) is Clear,
        p matches Payload::ClipboardFiles { paths, .. } ==> {
            &&& paths@.len() == 0 ==> remote_write(p) is Nothing
            &&& paths@.len() > 0 ==> {
                &&& remote_write(p) matches WriteView::Files(f)
                &&& f.len() == paths@.len()
                &&& forall|i: int| 0 <= i < f.len() ==> #[trigger] f[i] == paths@[i]@
            }
        },
        !(p is ClipboardText || p is ClipboardImage || p is ClipboardFileOffer || p
            is ClipboardClear || p is ClipboardFiles) ==> remote_write(p) is Nothing,
{
}

/// The revision that the peer's clipboard names is the current one from then on; a
/// cleared clipboard has none, and neither has one whose revision is empty. A message
/// that writes nothing leaves the revision.
pub proof fn law_revision_is_the_one_named(p: Payload, current: Option<Seq<char>>)
    ensures
        p matches Payload::ClipboardText { id, .. } ==> (id@.len() > 0 ==> remote_revision(
            p,
            current,
        ) == Some(id@)) && (id@.len() == 0 ==> remote_revision(p, current) is None),
        p matches Payload::ClipboardImage { id, .. } ==> (id@.len() > 0 ==> remote_revision(
            p,
            current,
        ) == Some(id@)) && (id@.len() == 0 ==> remote_revision(p, current) is None),
        p matches Payload::ClipboardFileOffer { id } ==> remote_revision(p, current) == Some(id@),
        p is ClipboardClear ==> remote_revision(p, current) is None,
        p matches Payload::ClipboardFiles { id, paths } ==> (paths@.len() > 0 && id@.len() > 0
            ==> remote_revision(p, current) == Some(id@)) && (paths@.len() > 0 && id@.len() == 0
            ==> remote_revision(p, current) is None) && (paths@.len() == 0 ==> remote_revision(
            p,
            current,
        ) == current),
        !(p is ClipboardText || p is ClipboardImage || p is ClipboardFileOffer || p
            is ClipboardClear || p is ClipboardFiles) ==> remote_revision(p, current) == current,
{
}

/// What is copied here is told to the peer as it is, unless it is empty; of files only
/// that they will come.
pub proof fn law_copy_is_told_as_it_is<P>(
    content: LocalContent<P>,
    id: Seq<char>,
    p: Option<Payload>,
)
    requires
        shares(content, id, p),
    ensures
        p is Some <==> match content {
            LocalContent::Empty => false,
            LocalContent::Text(t) => t@.len() > 0,
            LocalContent::Image(b) => b@.len() > 0,
            LocalContent::Files(f) => f@.len() > 0,
        },
        p matches Some(Payload::ClipboardText { id: i, text }) ==> i@ == id && content == (
        LocalContent::<P>::Text(text)),
        p matches Some(Payload::ClipboardImage { id: i, png }) ==> i@ == id && content == (
        LocalContent::<P>::Image(png)),
        p matches Some(Payload::ClipboardFileOffer { id: i }) ==> i@ == id && content is Files,
{
}

/// Copied files are sent as one batch for the clipboard under the revision that the peer
/// was told of, and that batch is the one of the clipboard from then on. Where they cannot
/// be sent, nothing changes.
pub proof fn law_copied_files_follow_their_offer<P>(
    paths: Vec<P>,
    id: Seq<char>,
    connected: bool,
    before: BooksState<P>,
    after: BooksState<P>,
    files: Option<Result<Enqueued, String>>,
)
    requires
        paths@.len() > 0,
        sends_files(LocalContent::Files(paths), id, connected, before, after, files),
    ensures
        files is Some,
        !connected ==> files->0 is Err && after == before,
        files matches Some(Ok(q)) ==> {
            &&& connected
            &&& after.clipboard_batch == Some(q.id@)
            &&& q.is_for(q.id@, false, None, Some(id))
        },
        files matches Some(Err(_)) ==> after == before,
{
}

/// A new copy breaks off the files of the one before: their batch is marked as given up
/// and is no longer the one of the clipboard. Everything else in the books stays.
pub proof fn law_earlier_files_are_broken_off<P>(books: BooksState<P>, id: Seq<char>)
    ensures
        without_copy(books).clipboard_batch is None,
        books.clipboard_batch == Some(id) ==> without_copy(books).cancelled.contains(id),
        books.clipboard_batch is None ==> without_copy(books) == books,
        books.cancelled.contains(id) ==> without_copy(books).cancelled.contains(id),
        without_copy(books).cancelled.contains(id) && !books.cancelled.contains(id)
            ==> books.clipboard_batch == Some(id),
{
}

} // verus!
