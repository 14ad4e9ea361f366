//! The Windows clipboard: its formats, and the window that watches it.

use vstd::prelude::*;

use crate::bytes::{push_u16_le, push_u32_le, u16_le, u32_le};
use crate::platform::win::bitmap::{dib_bytes_to_png, dib_fits, dib_png};
use crate::platform::{opt_bytes, preferred, preferred_content, ClipboardContent, ContentView};
use crate::text::texts;
use crate::utf16::{lossy, push_utf16, text_up_to_nul, up_to_nul, utf16};

verus! {

/// The format of a list of files.
pub const CF_HDROP: u32 = 15;

pub const WM_RENDERFORMAT: u32 = 0x0305;

pub const WM_RENDERALLFORMATS: u32 = 0x0306;

pub const WM_DESTROYCLIPBOARD: u32 = 0x0307;

pub const WM_CLIPBOARDUPDATE: u32 = 0x031D;

/// UTF-16 as bytes.
pub open spec fn unit_bytes(v: Seq<u16>) -> Seq<u8>
    decreases v.len(),
{
    if v.len() == 0 {
        Seq::empty()
    } else {
        unit_bytes(v.drop_last()) + u16_le(v.last() as int)
    }
}

fn push_units(out: &mut Vec<u8>, v: &Vec<u16>)
    ensures
        final(out)@ == old(out)@ + unit_bytes(v@),
{
    let ghost start = out@;
    let n: usize = v.len();
    let mut i: usize = 0;
    assert(start + unit_bytes(v@.take(0)) =~= start);
    while i < n
        invariant
            n == v@.len(),
            i <= n,
            out@ == start + unit_bytes(v@.take(i as int)),
        decreases n - i,
    {
        push_u16_le(out, v[i]);
        i += 1;
        assert(v@.take(i as int).drop_last() =~= v@.take(i - 1));
        assert(out@ =~= start + unit_bytes(v@.take(i as int)));
    }
    assert(v@.take(n as int) =~= v@);
}

/// A text as the clipboard holds it: UTF-16 with a zero behind it.
pub fn text_bytes(text: &str) -> (out: Vec<u8>)
    ensures
        out@ == unit_bytes(utf16(text@).push(0)),
{
    let mut v: Vec<u16> = Vec::new();
    push_utf16(&mut v, text);
    v.push(0);
    let mut out: Vec<u8> = Vec::new();
    push_units(&mut out, &v);
    assert(Seq::<u16>::empty() + utf16(text@) =~= utf16(text@));
    out
}

/// The names of files one after another, each with a zero behind it.
pub open spec fn file_names(paths: Seq<Seq<char>>) -> Seq<u16>
    decreases paths.len(),
{
    if paths.len() == 0 {
        Seq::empty()
    } else {
        file_names(paths.drop_last()) + utf16(paths.last()).push(0)
    }
}

/// A list of files as the clipboard holds it: a header that says where the names
/// start and that they are in UTF-16, the names, and one more zero.
pub open spec fn hdrop(paths: Seq<Seq<char>>) -> Seq<u8> {
    u32_le(20) + u32_le(0) + u32_le(0) + u32_le(0) + u32_le(1) + unit_bytes(
        file_names(paths).push(0),
    )
}

/// A list of files as the clipboard and drags hold it.
pub fn hdrop_bytes(paths: &Vec<String>) -> (out: Vec<u8>)
    ensures
        out@ == hdrop(texts(paths@)),
{
    let mut v: Vec<u16> = Vec::new();
    let n: usize = paths.len();
    let mut i: usize = 0;
    while i < n
        invariant
            n == paths@.len(),
            i <= n,
            v@ == file_names(texts(paths@).take(i as int)),
        decreases n - i,
    {
        push_utf16(&mut v, &paths[i]);
        v.push(0);
        i += 1;
        proof {
            let now = texts(paths@).take(i as int);
            assert(now.drop_last() =~= texts(paths@).take(i - 1));
            assert(now.last() == paths@[i - 1]@);
            assert(v@ =~= file_names(now));
        }
    }
    assert(texts(paths@).take(n as int) =~= texts(paths@));
    v.push(0);
    let mut out: Vec<u8> = Vec::new();
    push_u32_le(&mut out, 20);
    push_u32_le(&mut out, 0);
    push_u32_le(&mut out, 0);
    push_u32_le(&mut out, 0);
    push_u32_le(&mut out, 1);
    push_units(&mut out, &v);
    assert(out@ =~= hdrop(texts(paths@)));
    out
}

/// What is put on the clipboard for a list of files: nothing for an empty one.
pub fn files_for_clipboard(paths: &Vec<String>) -> (r: Option<Vec<u8>>)
    ensures
        opt_bytes(r) == if paths@.len() == 0 {
            None
        } else {
            Some(hdrop(texts(paths@)))
        },
{
    if paths.len() == 0 {
        None
    } else {
        Some(hdrop_bytes(paths))
    }
}

/// What is put on the clipboard beside a list of files: they are to be copied.
pub fn preferred_drop_effect() -> (out: Vec<u8>)
    ensures
        out@ == u32_le(1),
{
    let mut out: Vec<u8> = Vec::new();
    push_u32_le(&mut out, 1);
    assert(out@ =~= u32_le(1));
    out
}

/// The paths in a list of files, where the system gives each as UTF-16 up to a
/// zero; an empty one is left out.
pub open spec fn read_names(names: Seq<Vec<u16>>) -> Seq<Seq<char>>
    decreases names.len(),
{
    if names.len() == 0 {
        Seq::empty()
    } else if names.last()@.len() == 0 {
        read_names(names.drop_last())
    } else {
        read_names(names.drop_last()).push(lossy(up_to_nul(names.last()@)))
    }
}

/// The paths in a list of files.
pub fn hdrop_paths(names: &Vec<Vec<u16>>) -> (paths: Vec<String>)
    ensures
        texts(paths@) == read_names(names@),
{
    let mut paths: Vec<String> = Vec::new();
    let n: usize = names.len();
    let mut i: usize = 0;
    assert(texts(paths@) =~= Seq::<Seq<char>>::empty());
    while i < n
        invariant
            n == names@.len(),
            i <= n,
            texts(paths@) == read_names(names@.take(i as int)),
        decreases n - i,
    {
        let ghost before = paths@;
        if names[i].len() > 0 {
            let path = text_up_to_nul(&names[i]);
            paths.push(path);
            assert(texts(paths@) =~= texts(before).push(path@));
        }
        i += 1;
        assert(names@.take(i as int).drop_last() =~= names@.take(i - 1));
    }
    assert(names@.take(n as int) =~= names@);
    paths
}

/// What the clipboard holds, from what it has in each format: a PNG counts before a
/// bitmap.
pub open spec fn clipboard_content(
    files: Option<Vec<Vec<u16>>>,
    png: Option<Vec<u8>>,
    dib: Option<Vec<u8>>,
    text: Option<Vec<u16>>,
) -> ContentView {
    preferred(
        match files {
            Some(names) => Some(read_names(names@)),
            None => None,
        },
        match (png, dib) {
            (Some(p), _) => Some(p@),
            (None, Some(d)) => dib_png(d@),
            (None, None) => None,
        },
        match text {
            Some(t) => Some(lossy(up_to_nul(t@))),
            None => None,
        },
    )
}

/// What the clipboard holds, from what it has in each format.
pub fn read_clipboard(
    files: Option<Vec<Vec<u16>>>,
    png: Option<Vec<u8>>,
    dib: Option<Vec<u8>>,
    text: Option<Vec<u16>>,
) -> (content: ClipboardContent)
    requires
        dib matches Some(d) ==> dib_fits(d@),
    ensures
        content@ == clipboard_content(files, png, dib, text),
{
    let paths: Option<Vec<String>> = match files {
        Some(names) => Some(hdrop_paths(&names)),
        None => None,
    };
    let image: Option<Vec<u8>> = match (png, dib) {
        (Some(p), _) => Some(p),
        (None, Some(d)) => dib_bytes_to_png(&d),
        (None, None) => None,
    };
    let shown: Option<String> = match text {
        Some(t) => Some(text_up_to_nul(&t)),
        None => None,
    };
    preferred_content(paths, image, shown)
}

/// What becomes of a message to the window that watches the clipboard.
#[derive(Debug)]
pub enum ClipboardAction {
    /// The clipboard changed: read it.
    Read,
    /// Files that the peer offered are pasted: ask for the offer with this id.
    Render(String),
    /// Nothing more to do.
    Handled,
    /// The message is not for the library.
    Pass,
}

/// The window that watches the clipboard.
#[derive(Debug)]
pub struct ClipboardWindow {
    /// The revision of the clipboard that this program made, until it was seen.
    pub own_sequence: u32,
    /// The files of the peer that are offered and not pasted yet.
    pub offered: Option<String>,
}

impl ClipboardWindow {
    /// Nothing was written and nothing is offered.
    pub fn new() -> (w: Self)
        ensures
            w.own_sequence == 0,
            w.offered is None,
    {
        ClipboardWindow { own_sequence: 0, offered: None }
    }

    /// This program wrote to the clipboard, which is now at the revision `sequence`.
    pub fn remember_local_clipboard_sequence(&mut self, sequence: u32)
        ensures
            *final(self) == (ClipboardWindow { own_sequence: sequence, ..*old(self) }),
    {
        self.own_sequence = sequence;
    }

    /// Files of the peer are offered in the clipboard; they are fetched when they
    /// are pasted. Where the clipboard could not be opened, nothing is offered.
    pub fn offer(&mut self, id: String, opened: bool)
        ensures
            *final(self) == (ClipboardWindow {
                offered: if opened {
                    Some(id)
                } else {
                    None
                },
                ..*old(self)
            }),
    {
        if opened {
            self.offered = Some(id);
        } else {
            self.offered = None;
        }
    }

    /// Whether the change to the revision `sequence` is one that this program made.
    pub open spec fn is_own(self, sequence: u32) -> bool {
        sequence != 0 && self.own_sequence == sequence
    }

    /// Whether `action` is what becomes of a message, and `after` what is known then.
    pub open spec fn answers(
        self,
        msg: u32,
        format: u32,
        sequence: u32,
        action: ClipboardAction,
        after: ClipboardWindow,
    ) -> bool {
        match msg {
            WM_CLIPBOARDUPDATE => if self.is_own(sequence) {
                &&& action is Handled
                &&& after == (ClipboardWindow { own_sequence: 0, ..self })
            } else {
                &&& action is Read
                &&& after == self
            },
            WM_RENDERFORMAT => {
                &&& action == match self.offered {
                    Some(id) if format == CF_HDROP => ClipboardAction::Render(id),
                    _ => ClipboardAction::Handled,
                }
                &&& after == (ClipboardWindow { offered: None, ..self })
            },
            WM_RENDERALLFORMATS => {
                &&& action is Handled
                &&& after == (ClipboardWindow { offered: None, ..self })
            },
            WM_DESTROYCLIPBOARD => {
                &&& action is Handled
                &&& after == (ClipboardWindow { offered: None, ..self })
            },
            _ => action is Pass && after == self,
        }
    }

    /// A message `msg` about the format `format` came; the clipboard is at the
    /// revision `sequence`. An offer can be pasted once, and it is gone when another
    /// program takes the clipboard.
    pub fn on_message(&mut self, msg: u32, format: u32, sequence: u32) -> (action: ClipboardAction)
        ensures
            match msg {
                WM_CLIPBOARDUPDATE => if old(self).is_own(sequence) {
                    &&& action is Handled
                    &&& *final(self) == (ClipboardWindow { own_sequence: 0, ..*old(self) })
                } else {
                    &&& action is Read
                    &&& *final(self) == *old(self)
                },
                WM_RENDERFORMAT => {
                    &&& action == match old(self).offered {
                        Some(id) if format == CF_HDROP => ClipboardAction::Render(id),
                        _ => ClipboardAction::Handled,
                    }
                    &&& *final(self) == (ClipboardWindow { offered: None, ..*old(self) })
                },
                WM_RENDERALLFORMATS => {
                    &&& action is Handled
                    &&& *final(self) == (ClipboardWindow { offered: None, ..*old(self) })
                },
                WM_DESTROYCLIPBOARD => {
                    &&& action is Handled
                    &&& *final(self) == (ClipboardWindow { offered: None, ..*old(self) })
                },
                _ => action is Pass && *final(self) == *old(self),
            },
            old(self).answers(msg, format, sequence, action, *final(self)),
    {
        match msg {
            WM_CLIPBOARDUPDATE => {
                if sequence != 0 && self.own_sequence == sequence {
                    self.own_sequence = 0;
                    ClipboardAction::Handled
                } else {
                    ClipboardAction::Read
                }
            },
            WM_RENDERFORMAT => match self.offered.take() {
                Some(id) => {
                    if format == CF_HDROP {
                        ClipboardAction::Render(id)
                    } else {
                        ClipboardAction::Handled
                    }
                },
                None => ClipboardAction::Handled,
            },
            WM_RENDERALLFORMATS => {
                self.offered = None;
                ClipboardAction::Handled
            },
            WM_DESTROYCLIPBOARD => {
                self.offered = None;
                ClipboardAction::Handled
            },
            _ => ClipboardAction::Pass,
        }
    }
}

/// A change that this program made is skipped once, and no later change is: what the
/// user copies next is always read.
pub proof fn law_own_change_is_skipped_once(w: ClipboardWindow, own: u32, later: u32)
    requires
        own != 0,
    ensures
        ({
            let written = ClipboardWindow { own_sequence: own, ..w };
            let seen = ClipboardWindow { own_sequence: 0, ..written };
            &&& written.is_own(own)
            &&& later != own ==> !written.is_own(later)
            &&& !seen.is_own(later)
        }),
{
}

/// What is put on the clipboard when a paste is done: the list of files, and nothing
/// where the files did not come.
pub fn render_clipboard_hdrop(result: Result<Vec<String>, String>) -> (r: Option<Vec<u8>>)
    ensures
        opt_bytes(r) == match result {
            Ok(paths) if paths@.len() > 0 => Some(hdrop(texts(paths@))),
            _ => None,
        },
{
    match result {
        Ok(paths) => files_for_clipboard(&paths),
        Err(_) => None,
    }
}

/// A unit of UTF-16 is two bytes, the less significant first.
pub proof fn law_units_are_two_bytes(v: Seq<u16>, i: int)
    requires
        0 <= i < v.len(),
    ensures
        unit_bytes(v).len() == 2 * v.len(),
        unit_bytes(v)[2 * i] + 0x100 * unit_bytes(v)[2 * i + 1] == v[i],
    decreases v.len(),
{
    let before = v.drop_last();
    if before.len() > 0 {
        law_units_are_two_bytes(before, if i < before.len() { i } else { 0 });
    } else {
        assert(unit_bytes(before).len() == 0);
    }
}

/// The bytes of a list of files: a header of twenty bytes that tells its own length first
/// and ends with a one for UTF-16, with zeros between; then the names, and one more zero
/// behind the last.
pub proof fn law_layout_of_a_list_of_files(paths: Seq<Seq<char>>, i: int)
    ensures
        hdrop(paths).len() == 20 + 2 * (file_names(paths).len() + 1),
        hdrop(paths)[0] == 20,
        0 < i < 20 && i != 16 ==> hdrop(paths)[i] == 0,
        hdrop(paths)[16] == 1,
        hdrop(paths).skip(20) == unit_bytes(file_names(paths).push(0)),
{
    let names = file_names(paths).push(0);
    law_units_are_two_bytes(names, 0);
    assert(hdrop(paths).skip(20) =~= unit_bytes(names));
}

/// The names in a list of files stand in its order, each in UTF-16 with a zero behind it.
pub proof fn law_names_stand_in_order(paths: Seq<Seq<char>>, last: Seq<char>)
    ensures
        file_names(Seq::empty()).len() == 0,
        file_names(paths.push(last)) == (file_names(paths) + utf16(last)).push(0),
{
    assert(paths.push(last).drop_last() =~= paths);
    assert(file_names(paths) + utf16(last).push(0) =~= (file_names(paths) + utf16(last)).push(0));
}

/// Each name that the system gives becomes one path, in its order and up to its zero; only
/// an empty one is left out.
pub proof fn law_given_names_become_paths(names: Seq<Vec<u16>>, last: Vec<u16>)
    ensures
        read_names(Seq::empty()).len() == 0,
        last@.len() == 0 ==> read_names(names.push(last)) == read_names(names),
        last@.len() > 0 ==> read_names(names.push(last)) == read_names(names).push(
            lossy(up_to_nul(last@)),
        ),
{
    assert(names.push(last).drop_last() =~= names);
}

/// A clipboard with files holds files, whatever else there is; else a PNG counts, then a
/// bitmap that can be read, then a text.
pub proof fn law_which_format_counts(
    files: Option<Vec<Vec<u16>>>,
    png: Option<Vec<u8>>,
    dib: Option<Vec<u8>>,
    text: Option<Vec<u16>>,
)
    ensures
        ({
            let content = clipboard_content(files, png, dib, text);
            let has_files = files matches Some(names) && read_names(names@).len() > 0;
            let picture = dib matches Some(d) && dib_png(d@) is Some;
            &&& has_files ==> content == ContentView::Files(read_names(files->0@))
            &&& !has_files && png is Some ==> content == ContentView::Image(png->0@)
            &&& !has_files && png is None && picture ==> content == ContentView::Image(
                dib_png(dib->0@)->0,
            )
            &&& !has_files && png is None && !picture && text is Some ==> content
                == ContentView::Text(lossy(up_to_nul(text->0@)))
            &&& !has_files && png is None && !picture && text is None ==> content is Empty
        }),
{
}

/// What becomes of a message to the window. A change of the clipboard is read unless this
/// program made it. A list of files is fetched when it is asked for, once; an offer is
/// gone when anything is asked for or another program takes the clipboard.
pub proof fn law_what_messages_do(
    w: ClipboardWindow,
    msg: u32,
    format: u32,
    sequence: u32,
    action: ClipboardAction,
    after: ClipboardWindow,
)
    requires
        w.answers(msg, format, sequence, action, after),
    ensures
        msg == 0x031D && sequence != 0 && sequence == w.own_sequence ==> action is Handled
            && after.own_sequence == 0 && after.offered == w.offered,
        msg == 0x031D && (sequence == 0 || sequence != w.own_sequence) ==> action is Read && after
            == w,
        msg == 0x0305 && format == 15 && w.offered is Some ==> action == ClipboardAction::Render(
            w.offered->0,
        ),
        msg == 0x0305 && (format != 15 || w.offered is None) ==> action is Handled,
        msg == 0x0306 || msg == 0x0307 ==> action is Handled,
        msg == 0x0305 || msg == 0x0306 || msg == 0x0307 ==> after.offered is None
            && after.own_sequence == w.own_sequence,
        msg != 0x031D && msg != 0x0305 && msg != 0x0306 && msg != 0x0307 ==> action is Pass && after
            == w,
{
}

} // verus!
