//! The logic of QD2, a viewer for QEMU displays that are exported over D-Bus.

pub mod cli;
pub mod diagnostics;
pub mod error;
pub mod qemu;
pub mod report;
pub mod text;
pub mod viewer;
