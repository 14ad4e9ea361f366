//! Sending files and folders from one machine to the other.

pub mod digest;
pub mod names;
pub mod plan;
pub mod receiver;
pub mod sender;
pub mod update;
