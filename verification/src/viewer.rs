//! The viewer: what happens between the display protocol and the window.

pub mod audio;
pub mod clipboard;
pub mod cursor;
pub mod dmabuf;
pub mod events;
pub mod framebuffer;
pub mod hotkeys;
pub mod input;
pub mod keyboard;
pub mod keymap;
pub mod mouse;
pub mod pixel;
pub mod reconnect;
pub mod session;
pub mod stream;
pub mod surface;
pub mod window;
