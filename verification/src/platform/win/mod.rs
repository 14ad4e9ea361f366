//! Windows.

use vstd::prelude::*;

pub mod bitmap;
pub mod clipboard;
pub mod codes;
pub mod cursor;
pub mod drag;
pub mod hook;
pub mod inject;

verus! {

/// Shortcuts of the peer are translated for Windows.
pub const TARGET_IS_MAC: bool = false;

} // verus!
