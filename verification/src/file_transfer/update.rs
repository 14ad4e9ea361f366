//! What a transfer reports and asks for.

use vstd::prelude::*;

use crate::text::{opt_text, texts};

verus! {

/// Which way a batch goes.
#[derive(Debug, Clone, Copy, PartialEq, Eq, Structural)]
pub enum Direction {
    Send,
    Receive,
}

/// How a batch stands.
#[derive(Debug, Clone, Copy, PartialEq, Eq, Structural)]
pub enum Status {
    Preparing,
    Transferring,
    Completed,
    Failed,
    Cancelled,
}

/// A line for the list of transfers that the user sees.
#[derive(Debug, Clone, PartialEq)]
pub struct TransferUpdate {
    pub id: String,
    pub direction: Direction,
    pub name: String,
    pub status: Status,
    pub transferred: u64,
    pub total: u64,
    pub files_done: u32,
    pub files_total: u32,
    pub error: Option<String>,
    pub path: Option<String>,
}

/// The contents of a `TransferUpdate`.
pub struct UpdateView {
    pub id: Seq<char>,
    pub direction: Direction,
    pub name: Seq<char>,
    pub status: Status,
    pub transferred: u64,
    pub total: u64,
    pub files_done: u32,
    pub files_total: u32,
    pub error: Option<Seq<char>>,
    pub path: Option<Seq<char>>,
}

impl View for TransferUpdate {
    type V = UpdateView;

    open spec fn view(&self) -> UpdateView {
        UpdateView {
            id: self.id@,
            direction: self.direction,
            name: self.name@,
            status: self.status,
            transferred: self.transferred,
            total: self.total,
            files_done: self.files_done,
            files_total: self.files_total,
            error: opt_text(self.error),
            path: opt_text(self.path),
        }
    }
}

/// Something that the receiving side wants done.
#[derive(Debug, Clone, PartialEq)]
pub enum Effect {
    /// Tell the user.
    Update(TransferUpdate),
    /// Close and delete an unfinished file.
    RemoveFile(String),
    /// Delete what was created for a batch.
    CleanUp(Vec<String>),
    /// Delete the folder that held the files of a drag.
    RemoveFolder(String),
    /// Delete that folder when the drop target had time to copy from it.
    RemoveFolderLater(String),
    /// Tell the drop target that its files are there, or why they are not.
    CompleteDrag { id: String, paths: Vec<String>, error: Option<String> },
    /// Put the files on the clipboard.
    WriteClipboardFiles(Vec<String>),
    /// Tell the user that files arrived.
    Received { name: String, paths: Vec<String> },
}

/// The contents of an `Effect`.
pub enum EffectView {
    Update(UpdateView),
    RemoveFile(Seq<char>),
    CleanUp(Seq<Seq<char>>),
    RemoveFolder(Seq<char>),
    RemoveFolderLater(Seq<char>),
    CompleteDrag { id: Seq<char>, paths: Seq<Seq<char>>, error: Option<Seq<char>> },
    WriteClipboardFiles(Seq<Seq<char>>),
    Received { name: Seq<char>, paths: Seq<Seq<char>> },
}

impl View for Effect {
    type V = EffectView;

    open spec fn view(&self) -> EffectView {
        match *self {
            Effect::Update(u) => EffectView::Update(u@),
            Effect::RemoveFile(path) => EffectView::RemoveFile(path@),
            Effect::CleanUp(paths) => EffectView::CleanUp(texts(paths@)),
            Effect::RemoveFolder(path) => EffectView::RemoveFolder(path@),
            Effect::RemoveFolderLater(path) => EffectView::RemoveFolderLater(path@),
            Effect::CompleteDrag { id, paths, error } => EffectView::CompleteDrag {
                id: id@,
                paths: texts(paths@),
                error: opt_text(error),
            },
            Effect::WriteClipboardFiles(paths) => EffectView::WriteClipboardFiles(
                texts(paths@),
            ),
            Effect::Received { name, paths } => EffectView::Received {
                name: name@,
                paths: texts(paths@),
            },
        }
    }
}

/// The contents of some effects.
pub open spec fn effect_views(v: Seq<Effect>) -> Seq<EffectView> {
    v.map_values(|e: Effect| e@)
}

/// What the user is told of a batch is what the line holds.
pub proof fn law_lines_mean_what_they_hold(u: TransferUpdate)
    ensures
        u@.id == u.id@,
        u@.direction == u.direction,
        u@.name == u.name@,
        u@.status == u.status,
        u@.transferred == u.transferred,
        u@.total == u.total,
        u@.files_done == u.files_done,
        u@.files_total == u.files_total,
        u.error matches Some(e) ==> u@.error == Some(e@),
        u.error is None ==> u@.error is None,
        u.path matches Some(p) ==> u@.path == Some(p@),
        u.path is None ==> u@.path is None,
{
}

/// What is to be done is what was asked for, each in its place.
pub proof fn law_effects_mean_what_they_hold(v: Seq<Effect>, i: int)
    requires
        0 <= i < v.len(),
    ensures
        effect_views(v).len() == v.len(),
        v[i] matches Effect::Update(u) ==> effect_views(v)[i] == EffectView::Update(u@),
        v[i] matches Effect::RemoveFile(p) ==> effect_views(v)[i] == EffectView::RemoveFile(p@),
        v[i] matches Effect::RemoveFolder(p) ==> effect_views(v)[i] == EffectView::RemoveFolder(p@),
        v[i] matches Effect::RemoveFolderLater(p) ==> effect_views(v)[i]
            == EffectView::RemoveFolderLater(p@),
        v[i] is CleanUp ==> effect_views(v)[i] is CleanUp,
        v[i] is CompleteDrag ==> effect_views(v)[i] is CompleteDrag,
        v[i] is WriteClipboardFiles ==> effect_views(v)[i] is WriteClipboardFiles,
        v[i] is Received ==> effect_views(v)[i] is Received,
{
}

} // verus!
