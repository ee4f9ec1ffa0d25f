//! Playing the guest's sound.

pub mod format;
pub mod playback;
pub mod volume;
