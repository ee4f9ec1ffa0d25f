//! Finding QEMU virtual machines on D-Bus and describing them.

pub mod discovery;
pub mod inspection;
pub mod selection;
pub mod types;
pub mod warnings;
