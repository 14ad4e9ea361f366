//! Ruiss: two computers share one mouse, one keyboard and one clipboard.
//!
//! This crate is the decision-making part of the program. It never touches a
//! socket, a file, a clock or an operating-system hook: the application hands
//! it plain values (coordinates, timestamps in nanoseconds, bytes, names) and
//! carries out the actions it returns.

pub mod arbiter;
pub mod bytes;
pub mod clipboard;
pub mod file_transfer;
pub mod geometry;
pub mod ids;
pub mod key_table;
pub mod keys;
pub mod net;
pub mod platform;
pub mod protocol;
pub mod rounds;
pub mod router;
pub mod selftest;
pub mod settings;
pub mod table;
pub mod text;
pub mod utf16;
