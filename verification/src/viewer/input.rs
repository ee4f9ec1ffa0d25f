//! What is sent to the guest's keyboard and mouse.

use vstd::prelude::*;

verus! {

/// A button of the guest's mouse.
#[derive(Copy, Clone, Debug, PartialEq, Eq, Structural)]
pub enum MouseButton {
    Left,
    Middle,
    Right,
    WheelUp,
    WheelDown,
    Side,
    Extra,
}

/// How the guest's mouse takes motion.
#[derive(Copy, Clone, Debug, PartialEq, Eq, Structural)]
pub enum MouseMode {
    Disabled,
    Relative,
    Absolute,
}

impl MouseMode {
    /// The mode of a mouse that is or is not absolute.
    pub open spec fn of(is_absolute: bool) -> MouseMode {
        if is_absolute {
            MouseMode::Absolute
        } else {
            MouseMode::Relative
        }
    }

    /// The mode of a mouse that is or is not absolute.
    pub fn from_is_absolute(is_absolute: bool) -> (mode: MouseMode)
        ensures
            mode == MouseMode::of(is_absolute),
    {
        if is_absolute {
            MouseMode::Absolute
        } else {
            MouseMode::Relative
        }
    }
}

/// One thing sent to the guest's keyboard or mouse.
#[derive(Copy, Clone, Debug, PartialEq, Eq, Structural)]
pub enum InputEvent {
    KeyPress(u32),
    KeyRelease(u32),
    MousePress(MouseButton),
    MouseRelease(MouseButton),
    MouseAbs { x: u32, y: u32 },
    MouseRel { dx: i32, dy: i32 },
    MouseWheel(MouseButton),
}

/// The event moves the mouse.
pub open spec fn is_motion(input: InputEvent) -> bool {
    matches!(input, InputEvent::MouseAbs { .. } | InputEvent::MouseRel { .. })
}

/// Whether the event can fail because the mouse mode is not the expected one.
pub fn input_needs_mouse_mode(input: &InputEvent) -> (needs: bool)
    ensures
        needs == is_motion(*input),
{
    match input {
        InputEvent::MouseAbs { .. } => true,
        InputEvent::MouseRel { .. } => true,
        _ => false,
    }
}

}
