//! Sharing the clipboard with the guest.

pub mod bridge;
pub mod content;
pub mod host;
