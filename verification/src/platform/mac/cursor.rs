//! Hiding the cursor while it is on the other screen, and putting it away.

use vstd::prelude::*;

verus! {

/// The height of the area at the bottom of the screen that wakes the Dock.
pub const DOCK_HOT_ZONE: i32 = 20;

/// The height of the menu bar.
pub const MENUBAR_HOT_ZONE: i32 = 25;

/// Whether the cursor is hidden.
#[derive(Debug, Clone, Copy, PartialEq, Eq, Structural)]
pub struct CursorState {
    pub hidden: bool,
    /// The mouse was tied to the cursor once since the start. A run that ended badly
    /// may have left them apart.
    pub reassociated: bool,
}

/// What is to be done to show the cursor again.
#[derive(Debug, Clone, Copy, PartialEq, Eq, Structural)]
pub struct ShowPlan {
    /// Tie the mouse to the cursor.
    pub reassociate: bool,
    /// Show the cursor.
    pub show: bool,
}

impl CursorState {
    /// Nothing was hidden yet.
    pub fn new() -> (c: Self)
        ensures
            c == (CursorState { hidden: false, reassociated: false }),
    {
        CursorState { hidden: false, reassociated: false }
    }
}

/// After the cursor was hidden.
pub open spec fn hidden(c: CursorState) -> CursorState {
    CursorState { hidden: true, ..c }
}

/// After the cursor was shown.
pub open spec fn shown(c: CursorState) -> CursorState {
    CursorState { hidden: false, reassociated: true }
}

/// Hides the cursor. Returns whether the system has to be told: it counts how often
/// it is, so that each hiding is told once.
pub fn hide_cursor(cursor: &mut CursorState) -> (tell: bool)
    ensures
        *final(cursor) == hidden(*old(cursor)),
        tell == !old(cursor).hidden,
{
    let tell = !cursor.hidden;
    cursor.hidden = true;
    tell
}

/// Shows the cursor again. The system is told once for each hiding.
pub fn show_cursor(cursor: &mut CursorState) -> (plan: ShowPlan)
    ensures
        *final(cursor) == shown(*old(cursor)),
        plan == (ShowPlan { reassociate: !old(cursor).reassociated, show: old(cursor).hidden }),
{
    let plan = ShowPlan { reassociate: !cursor.reassociated, show: cursor.hidden };
    cursor.hidden = false;
    cursor.reassociated = true;
    plan
}

/// Whether the cursor has to be hidden once more when the mouse moved: never, since
/// it is hidden for the whole system.
pub fn enforce_cursor_hidden(cursor: &CursorState) -> (again: bool)
    ensures
        !again,
{
    let _ = cursor;
    false
}

/// Each hiding that the system is told of is followed by one showing before the
/// next.
pub proof fn law_hiding_and_showing_alternate(c: CursorState)
    ensures
        hidden(hidden(c)) == hidden(c),
        shown(shown(c)) == shown(c),
        hidden(c).hidden,
        !shown(c).hidden,
{
}

/// Where the hidden cursor is kept from the menu bar and the Dock, which would show
/// it again.
pub open spec fn away_from_hot_zones(y: int, h: int) -> int {
    if h > MENUBAR_HOT_ZONE + DOCK_HOT_ZONE + 1 {
        if y < MENUBAR_HOT_ZONE {
            MENUBAR_HOT_ZONE as int
        } else if y > h - 1 - DOCK_HOT_ZONE {
            h - 1 - DOCK_HOT_ZONE
        } else {
            y
        }
    } else {
        y
    }
}

/// Where the local cursor is put when control goes over, on a screen that is `h`
/// high.
pub fn warp_cursor_cross(x: i32, y: i32, h: i32) -> (to: (i32, i32))
    ensures
        to.0 == x,
        to.1 == away_from_hot_zones(y as int, h as int),
{
    if h > MENUBAR_HOT_ZONE + DOCK_HOT_ZONE + 1 {
        let lowest: i32 = h - 1 - DOCK_HOT_ZONE;
        if y < MENUBAR_HOT_ZONE {
            (x, MENUBAR_HOT_ZONE)
        } else if y > lowest {
            (x, lowest)
        } else {
            (x, y)
        }
    } else {
        (x, y)
    }
}

/// The hidden cursor is kept between the menu bar, 25 pixels high, and the area of the
/// Dock, the lowest 20, as near as possible to where it was; a screen that is too low for
/// that leaves it.
pub proof fn law_hidden_cursor_wakes_nothing(y: int, h: int)
    ensures
        h > 46 ==> {
            &&& 25 <= away_from_hot_zones(y, h) <= h - 21
            &&& 25 <= y <= h - 21 ==> away_from_hot_zones(y, h) == y
            &&& y < 25 ==> away_from_hot_zones(y, h) == 25
            &&& y > h - 21 ==> away_from_hot_zones(y, h) == h - 21
        },
        h <= 46 ==> away_from_hot_zones(y, h) == y,
{
}

/// Hiding says nothing about the tie between mouse and cursor; showing ties them.
pub proof fn law_showing_ties_the_mouse(c: CursorState)
    ensures
        hidden(c).reassociated == c.reassociated,
        shown(c).reassociated,
{
}

} // verus!
