//! macOS.

use vstd::prelude::*;

pub mod codes;
pub mod cursor;
pub mod inject;
pub mod pasteboard;
pub mod tap;

verus! {

/// Shortcuts of the peer are translated for macOS.
pub const TARGET_IS_MAC: bool = true;

/// What events that this program makes carry, so that they are known as its own.
pub const RUISS_EVENT_MARKER: i64 = 0x5255_4953_535F_4556;

} // verus!
