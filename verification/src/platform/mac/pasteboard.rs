//! Watching the macOS clipboard, which has to be asked whether it changed.

use vstd::prelude::*;

verus! {

/// What is known of the clipboard.
#[derive(Debug, Clone, Copy, PartialEq, Eq, Structural)]
pub struct PasteboardWatch {
    /// How often the clipboard had changed when it was last asked.
    pub last: i64,
    /// This program wrote to it, and the change was not seen yet.
    pub local_write: bool,
}

impl PasteboardWatch {
    /// After the clipboard was asked and had changed `count` times.
    pub open spec fn polled(self, count: i64) -> Self {
        PasteboardWatch {
            last: count,
            local_write: self.local_write && count == self.last,
        }
    }

    /// Whether a clipboard that has changed `count` times is to be read.
    pub open spec fn reads(self, count: i64) -> bool {
        count != self.last && !self.local_write
    }

    /// After this program wrote to the clipboard.
    pub open spec fn written(self) -> Self {
        PasteboardWatch { local_write: true, ..self }
    }

    /// The clipboard has changed `count` times so far.
    pub fn new(count: i64) -> (p: Self)
        ensures
            p == (PasteboardWatch { last: count, local_write: false }),
    {
        PasteboardWatch { last: count, local_write: false }
    }

    /// This program writes to the clipboard.
    pub fn wrote(&mut self)
        ensures
            *final(self) == (PasteboardWatch { local_write: true, ..*old(self) }),
            *final(self) == old(self).written(),
    {
        self.local_write = true;
    }

    /// The clipboard has changed `count` times now. Returns whether it is to be read:
    /// it changed, and not by this program.
    pub fn poll(&mut self, count: i64) -> (read: bool)
        ensures
            read == (count != old(self).last && !old(self).local_write),
            final(self).last == count,
            final(self).local_write == (old(self).local_write && count == old(self).last),
            *final(self) == old(self).polled(count),
            read == old(self).reads(count),
    {
        if count == self.last {
            return false;
        }
        self.last = count;
        if self.local_write {
            self.local_write = false;
            return false;
        }
        true
    }
}

/// A change by another program is read, once. A change by this program is not read, and
/// the next one by another is.
pub proof fn law_own_writes_are_not_read(p: PasteboardWatch, count: i64, later: i64)
    requires
        count != p.last,
        later != count,
    ensures
        !p.local_write ==> p.reads(count),
        !p.polled(count).reads(count),
        !p.written().reads(count),
        p.written().polled(count).reads(later),
        !p.reads(p.last),
        p.polled(p.last) == p,
{
}

} // verus!
