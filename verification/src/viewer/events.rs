//! What the display listener and the window tell each other.

use vstd::prelude::*;

use super::clipboard::content::ClipboardContent;
use super::clipboard::content::ClipboardSelection;
use super::cursor::GuestCursor;
use super::dmabuf::DmabufFrame;
use super::dmabuf::UpdateDMABUF;
use super::framebuffer::FramePatch;
use super::framebuffer::FrameSnapshot;
use super::input::InputEvent;
use super::input::MouseMode;

verus! {

/// What the listener tells the window.
#[derive(Debug)]
pub enum ViewerEvent {
    Frame(FrameSnapshot),
    FramePatch(FramePatch),
    Dmabuf(DmabufFrame),
    DmabufUpdate(UpdateDMABUF),
    CursorShapeChanged(Option<GuestCursor>),
    CursorVisibilityChanged(bool),
    MouseModeChanged(MouseMode),
    ClipboardGuestChanged(ClipboardSelection, ClipboardContent),
    Status(String),
    Disconnected,
}

/// What the window tells the listener.
#[derive(Debug)]
pub enum ViewerInput {
    Device(InputEvent),
    ClipboardHostChanged(ClipboardSelection, Option<ClipboardContent>),
    ClipboardViewerFocused(bool),
}

/// The event is a status with the given text.
pub open spec fn is_status(event: ViewerEvent, text: Seq<char>) -> bool {
    event matches ViewerEvent::Status(message) && message@ == text
}

}
