//! Hiding the cursor while it is on the other screen.

use vstd::prelude::*;

verus! {

/// The cursors that are replaced by an invisible one: arrow, text, busy, hand and
/// busy in the background.
pub open spec fn hidden_cursors() -> Seq<u32> {
    seq![32512u32, 32513, 32514, 32649, 32650]
}

/// Whether the cursor is hidden.
#[derive(Debug, Clone, Copy, PartialEq, Eq, Structural)]
pub struct CursorState {
    /// The cursors are replaced by an invisible one.
    pub suppressed: bool,
    /// The cursors were restored once since the start. A run that ended badly may
    /// have left them invisible.
    pub restored: bool,
}

impl CursorState {
    /// Nothing was hidden or restored yet.
    pub fn new() -> (c: Self)
        ensures
            c == (CursorState { suppressed: false, restored: false }),
    {
        CursorState { suppressed: false, restored: false }
    }
}

/// After the cursor was hidden.
pub open spec fn hidden(c: CursorState) -> CursorState {
    CursorState { suppressed: true, ..c }
}

/// After the cursor was shown.
pub open spec fn shown(c: CursorState) -> CursorState {
    CursorState { suppressed: false, restored: true }
}

/// Whether showing the cursor loads the system's cursors anew: when they were
/// replaced, and once after the start in any case.
pub open spec fn reloads(c: CursorState) -> bool {
    c.suppressed || !c.restored
}

/// Hides the cursor. Returns the cursors to replace; hiding twice does nothing more.
pub fn hide_cursor(cursor: &mut CursorState) -> (ids: Vec<u32>)
    ensures
        *final(cursor) == hidden(*old(cursor)),
        ids@ == if old(cursor).suppressed {
            Seq::<u32>::empty()
        } else {
            hidden_cursors()
        },
{
    let was_suppressed = cursor.suppressed;
    cursor.suppressed = true;
    if was_suppressed {
        Vec::new()
    } else {
        vec![32512, 32513, 32514, 32649, 32650]
    }
}

/// Shows the cursor again. Returns whether the system's cursors are to be loaded
/// anew.
pub fn show_cursor(cursor: &mut CursorState) -> (reload: bool)
    ensures
        *final(cursor) == shown(*old(cursor)),
        reload == reloads(*old(cursor)),
{
    let reload = cursor.suppressed || !cursor.restored;
    cursor.suppressed = false;
    cursor.restored = true;
    reload
}

/// Whether the cursor has to be hidden once more when the mouse moved: never, since
/// the cursors themselves were replaced.
pub fn enforce_cursor_hidden(cursor: &CursorState) -> (again: bool)
    ensures
        !again,
{
    let _ = cursor;
    false
}

/// Where the local cursor is put when control goes over: it stays at the edge,
/// since what follows are movements and not positions.
pub fn warp_cursor_cross(x: i32, y: i32) -> (to: Option<(i32, i32)>)
    ensures
        to is None,
{
    let _ = (x, y);
    None
}

/// However often the cursor was hidden, showing it once restores it, and showing it
/// once more does nothing.
pub proof fn law_hidden_cursor_comes_back(c: CursorState)
    ensures
        hidden(hidden(c)) == hidden(c),
        reloads(hidden(c)),
        shown(hidden(c)) == shown(c),
        !reloads(shown(c)),
{
}

/// Hiding says nothing about what was restored; the five cursors that are replaced are
/// different ones.
pub proof fn law_which_cursors_are_hidden(c: CursorState)
    ensures
        hidden(c).suppressed,
        hidden(c).restored == c.restored,
        shown(c).restored,
        !shown(c).suppressed,
        reloads(c) <==> (c.suppressed || !c.restored),
        hidden_cursors().len() == 5,
        hidden_cursors().no_duplicates(),
        hidden_cursors().contains(32512),
        hidden_cursors().contains(32513),
        hidden_cursors().contains(32514),
        hidden_cursors().contains(32649),
        hidden_cursors().contains(32650),
{
    assert(hidden_cursors()[0] == 32512);
    assert(hidden_cursors()[1] == 32513);
    assert(hidden_cursors()[2] == 32514);
    assert(hidden_cursors()[3] == 32649);
    assert(hidden_cursors()[4] == 32650);
}

} // verus!
