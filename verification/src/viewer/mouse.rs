//! From pointer events over the window to mouse events for the guest.

use vstd::prelude::*;

use super::dmabuf::wrapped;
use super::input::InputEvent;
use super::input::MouseButton;
use super::input::MouseMode;

verus! {

/// What the window knows of the frame and of the pointer.
#[derive(Copy, Clone, Debug, PartialEq, Eq)]
pub struct UiState {
    pub frame_size: Option<(u32, u32)>,
    pub last_pointer_guest_position: Option<(u32, u32)>,
}

impl Default for UiState {
    fn default() -> (state: UiState)
        ensures
            state.frame_size is None,
            state.last_pointer_guest_position is None,
    {
        UiState { frame_size: None, last_pointer_guest_position: None }
    }
}

impl UiState {
    /// The step from the last known place to `place`, in the signed coordinates of the protocol.
    pub open spec fn step_to(self, place: (u32, u32)) -> Option<(int, int)> {
        match self.last_pointer_guest_position {
            Some(last) => Some(
                (
                    wrapped(place.0 as int) - wrapped(last.0 as int),
                    wrapped(place.1 as int) - wrapped(last.1 as int),
                ),
            ),
            None => None,
        }
    }

    /// A relative mouse can express the step to `place`.
    pub open spec fn can_step_to(self, mode: MouseMode, place: Option<(u32, u32)>) -> bool {
        mode is Relative && place is Some ==> match self.step_to(place->0) {
            Some((dx, dy)) => i32::MIN <= dx <= i32::MAX && i32::MIN <= dy <= i32::MAX,
            None => true,
        }
    }

    /// What the guest is told when the pointer is at `place`; nowhere if it is not over the frame.
    pub open spec fn motion(self, mode: MouseMode, place: Option<(u32, u32)>) -> Option<
        InputEvent,
    > {
        match (self.frame_size, place) {
            (Some(_), Some((x, y))) => match mode {
                MouseMode::Disabled => None,
                MouseMode::Absolute => Some(InputEvent::MouseAbs { x, y }),
                MouseMode::Relative => match self.step_to((x, y)) {
                    Some((dx, dy)) => if dx != 0 || dy != 0 {
                        Some(InputEvent::MouseRel { dx: dx as i32, dy: dy as i32 })
                    } else {
                        None
                    },
                    None => None,
                },
            },
            _ => None,
        }
    }

    /// What is known once the pointer is at `place`.
    pub open spec fn after_motion(self, mode: MouseMode, place: Option<(u32, u32)>) -> UiState {
        if self.frame_size is None || place is Some && mode is Disabled {
            self
        } else {
            UiState { frame_size: self.frame_size, last_pointer_guest_position: place }
        }
    }

    /// Notes that the pointer is at `place` of the guest display, or not over it, and tells what
    /// the guest has to hear.
    pub fn sync_mouse_position(&mut self, mode: MouseMode, place: Option<(u32, u32)>) -> (event:
        Option<InputEvent>)
        requires
            old(self).can_step_to(mode, place),
        ensures
            event == old(self).motion(mode, place),
            *final(self) == old(self).after_motion(mode, place),
    {
        if self.frame_size.is_none() {
            return None;
        }
        let (guest_x, guest_y) = match place {
            Some((x, y)) => (x, y),
            None => {
                self.last_pointer_guest_position = None;
                return None;
            },
        };
        match mode {
            MouseMode::Disabled => None,
            MouseMode::Absolute => {
                self.last_pointer_guest_position = Some((guest_x, guest_y));
                Some(InputEvent::MouseAbs { x: guest_x, y: guest_y })
            },
            MouseMode::Relative => {
                let event = match self.last_pointer_guest_position {
                    Some((prev_x, prev_y)) => {
                        let dx: i32 = to_signed(guest_x) - to_signed(prev_x);
                        let dy: i32 = to_signed(guest_y) - to_signed(prev_y);
                        if dx != 0 || dy != 0 {
                            Some(InputEvent::MouseRel { dx, dy })
                        } else {
                            None
                        }
                    },
                    None => None,
                };
                self.last_pointer_guest_position = Some((guest_x, guest_y));
                event
            },
        }
    }

    /// Notes that the pointer has left the window.
    pub fn pointer_left(&mut self)
        ensures
            final(self).frame_size == old(self).frame_size,
            final(self).last_pointer_guest_position is None,
    {
        self.last_pointer_guest_position = None;
    }
}

fn to_signed(value: u32) -> (signed: i32)
    ensures
        signed == wrapped(value as int),
{
    if value > 0x7fff_ffff {
        (value as i64 - 0x1_0000_0000) as i32
    } else {
        value as i32
    }
}

/// The guest's button for a button of the windowing system.
pub open spec fn button_of(button: u32) -> Option<MouseButton> {
    if button == 1 {
        Some(MouseButton::Left)
    } else if button == 2 {
        Some(MouseButton::Middle)
    } else if button == 3 {
        Some(MouseButton::Right)
    } else if button == 8 {
        Some(MouseButton::Side)
    } else if button == 9 {
        Some(MouseButton::Extra)
    } else {
        None
    }
}

/// The guest's button for a button of the windowing system.
pub fn gtk_button_to_qemu(button: u32) -> (found: Option<MouseButton>)
    ensures
        found == button_of(button),
{
    match button {
        1u32 => Some(MouseButton::Left),
        2u32 => Some(MouseButton::Middle),
        3u32 => Some(MouseButton::Right),
        8u32 => Some(MouseButton::Side),
        9u32 => Some(MouseButton::Extra),
        _ => None,
    }
}

/// The events of a list that are there, in order.
pub open spec fn present(first: Option<InputEvent>, second: Option<InputEvent>) -> Seq<InputEvent> {
    match (first, second) {
        (Some(a), Some(b)) => seq![a, b],
        (Some(a), None) => seq![a],
        (None, Some(b)) => seq![b],
        (None, None) => Seq::empty(),
    }
}

fn collect(first: Option<InputEvent>, second: Option<InputEvent>) -> (events: Vec<InputEvent>)
    ensures
        events@ == present(first, second),
{
    let mut events: Vec<InputEvent> = Vec::new();
    if let Some(event) = first {
        events.push(event);
    }
    if let Some(event) = second {
        events.push(event);
    }
    assert(events@ =~= present(first, second));
    events
}

/// A button went down at `place`: the motion there, then the press.
pub fn button_pressed(
    state: &mut UiState,
    mode: MouseMode,
    place: Option<(u32, u32)>,
    button: u32,
) -> (events: Vec<InputEvent>)
    requires
        old(state).can_step_to(mode, place),
    ensures
        *final(state) == old(state).after_motion(mode, place),
        events@ == present(
            old(state).motion(mode, place),
            match button_of(button) {
                Some(pressed) => Some(InputEvent::MousePress(pressed)),
                None => None,
            },
        ),
{
    let motion = state.sync_mouse_position(mode, place);
    let press = match gtk_button_to_qemu(button) {
        Some(pressed) => Some(InputEvent::MousePress(pressed)),
        None => None,
    };
    collect(motion, press)
}

/// A button went up at `place`: the motion there, then the release; nothing without a grab.
pub fn button_released(
    state: &mut UiState,
    mode: MouseMode,
    grabbed: bool,
    place: Option<(u32, u32)>,
    button: u32,
) -> (events: Vec<InputEvent>)
    requires
        grabbed ==> old(state).can_step_to(mode, place),
    ensures
        if grabbed {
            &&& *final(state) == old(state).after_motion(mode, place)
            &&& events@ == present(
                old(state).motion(mode, place),
                match button_of(button) {
                    Some(released) => Some(InputEvent::MouseRelease(released)),
                    None => None,
                },
            )
        } else {
            *final(state) == *old(state) && events@ == Seq::<InputEvent>::empty()
        },
{
    if !grabbed {
        return Vec::new();
    }
    let motion = state.sync_mouse_position(mode, place);
    let release = match gtk_button_to_qemu(button) {
        Some(released) => Some(InputEvent::MouseRelease(released)),
        None => None,
    };
    collect(motion, release)
}

/// The pointer moved to `place`; nothing without a grab.
pub fn pointer_moved(
    state: &mut UiState,
    mode: MouseMode,
    grabbed: bool,
    place: Option<(u32, u32)>,
) -> (event: Option<InputEvent>)
    requires
        grabbed ==> old(state).can_step_to(mode, place),
    ensures
        if grabbed {
            event == old(state).motion(mode, place) && *final(state) == old(state).after_motion(
                mode,
                place,
            )
        } else {
            event is None && *final(state) == *old(state)
        },
{
    if grabbed {
        state.sync_mouse_position(mode, place)
    } else {
        None
    }
}

/// One wheel event for each tick, downwards where the scroll is positive.
pub fn emit_scroll_buttons(ticks: u32, positive: bool) -> (events: Vec<InputEvent>)
    ensures
        events@ == Seq::new(
            ticks as nat,
            |i: int|
                InputEvent::MouseWheel(
                    if positive {
                        MouseButton::WheelDown
                    } else {
                        MouseButton::WheelUp
                    },
                ),
        ),
{
    let button = if positive {
        MouseButton::WheelDown
    } else {
        MouseButton::WheelUp
    };
    let mut events: Vec<InputEvent> = Vec::new();
    for tick in 0..ticks
        invariant
            events@ == Seq::new(tick as nat, |i: int| InputEvent::MouseWheel(button)),
    {
        events.push(InputEvent::MouseWheel(button));
        assert(events@ =~= Seq::new((tick + 1) as nat, |i: int| InputEvent::MouseWheel(button)));
    }
    assert(events@ =~= Seq::new(
        ticks as nat,
        |i: int|
            InputEvent::MouseWheel(
                if positive {
                    MouseButton::WheelDown
                } else {
                    MouseButton::WheelUp
                },
            ),
    ));
    events
}

/// The steps of a relative mouse add up: the guest's pointer ends as far from its start as the
/// host's does.
pub proof fn relative_steps_add_up(
    state: UiState,
    start: (u32, u32),
    middle: (u32, u32),
    end: (u32, u32),
)
    requires
        state.frame_size is Some,
        state.last_pointer_guest_position == Some(start),
    ensures
        ({
            let next = state.after_motion(MouseMode::Relative, Some(middle));
            let first = state.step_to(middle)->0;
            let second = next.step_to(end)->0;
            let whole = state.step_to(end)->0;
            first.0 + second.0 == whole.0 && first.1 + second.1 == whole.1
        }),
{
}

/// After the pointer has left the frame, a relative mouse does not jump when it comes back.
pub proof fn coming_back_does_not_jump(state: UiState, mode: MouseMode, place: (u32, u32))
    requires
        state.frame_size is Some,
    ensures
        state.after_motion(mode, None).motion(MouseMode::Relative, Some(place)) is None,
{
}

/// An absolute mouse is put where the pointer is. A relative one is moved from where the pointer was
/// to where it is, and not at all if it has not moved or was not known to be anywhere. Without a
/// frame, off the frame or without a mouse nothing is said.
pub proof fn the_guest_pointer_follows(
    state: &mut UiState,
    mode: MouseMode,
    place: Option<(u32, u32)>,
    event: Option<InputEvent>,
)
    requires
        old(state).can_step_to(mode, place),
        call_ensures(UiState::sync_mouse_position, (state, mode, place), event),
    ensures
        final(state).frame_size == old(state).frame_size,
        old(state).frame_size is None || place is Some && mode is Disabled ==> *final(state) == *old(
            state,
        ),
        old(state).frame_size is None || place is None || mode is Disabled ==> event is None,
        old(state).frame_size is Some && !(mode is Disabled) ==> final(state).last_pointer_guest_position == place,
        old(state).frame_size is Some && place is None ==> final(state).last_pointer_guest_position is None,
        old(state).frame_size is Some && mode is Absolute ==> (place matches Some((x, y)) ==> event
            == Some(InputEvent::MouseAbs { x, y })),
        old(state).frame_size is Some && place is Some && mode is Relative ==> match old(
            state,
        ).last_pointer_guest_position {
            None => event is None,
            Some(last) => {
                let (x, y) = place->0;
                &&& event is None <==> last == (x, y)
                &&& event matches Some(told) ==> told is MouseRel
                &&& x <= i32::MAX && y <= i32::MAX && last.0 <= i32::MAX && last.1 <= i32::MAX ==> (
                event matches Some(InputEvent::MouseRel { dx, dy }) ==> last.0 + dx == x && last.1
                    + dy == y)
            },
        },
{
}

/// With a button the guest first hears of the pointer's motion, as it would without the button, and
/// then of the button: it is pressed and released where the pointer is. Nothing is released
/// without a grab. The buttons are left, middle and right, and the two on the side.
pub proof fn buttons_act_where_the_pointer_is(
    state: &mut UiState,
    mode: MouseMode,
    place: Option<(u32, u32)>,
    button: u32,
    found: Option<MouseButton>,
    pressed: Vec<InputEvent>,
    other: &mut UiState,
    grabbed: bool,
    released: Vec<InputEvent>,
    third: &mut UiState,
    motion: Option<InputEvent>,
)
    requires
        old(state).can_step_to(mode, place),
        *old(other) == *old(state),
        *old(third) == *old(state),
        call_ensures(gtk_button_to_qemu, (button,), found),
        call_ensures(button_pressed, (state, mode, place, button), pressed),
        call_ensures(button_released, (other, mode, grabbed, place, button), released),
        call_ensures(UiState::sync_mouse_position, (third, mode, place), motion),
    ensures
        found == Some(MouseButton::Left) <==> button == 1,
        found == Some(MouseButton::Middle) <==> button == 2,
        found == Some(MouseButton::Right) <==> button == 3,
        found == Some(MouseButton::Side) <==> button == 8,
        found == Some(MouseButton::Extra) <==> button == 9,
        found is Some ==> !(found->0 is WheelUp) && !(found->0 is WheelDown),
        ({
            let moved: int = if motion is Some {
                1
            } else {
                0
            };
            let acted: int = if found is Some {
                1
            } else {
                0
            };
            &&& pressed.len() == moved + acted
            &&& motion is Some ==> pressed[0] == motion->0
            &&& found is Some ==> pressed[moved] == InputEvent::MousePress(found->0)
            &&& *final(state) == *final(third)
            &&& !grabbed ==> released.len() == 0 && *final(other) == *old(other)
            &&& grabbed ==> {
                &&& released.len() == moved + acted
                &&& motion is Some ==> released[0] == motion->0
                &&& found is Some ==> released[moved] == InputEvent::MouseRelease(found->0)
                &&& *final(other) == *final(third)
            }
        }),
{
}

/// With a grab the guest hears of motion as it comes; without one it hears nothing.
pub proof fn motion_takes_a_grab(
    state: &mut UiState,
    mode: MouseMode,
    grabbed: bool,
    place: Option<(u32, u32)>,
    event: Option<InputEvent>,
    other: &mut UiState,
    motion: Option<InputEvent>,
)
    requires
        old(state).can_step_to(mode, place),
        *old(other) == *old(state),
        call_ensures(pointer_moved, (state, mode, grabbed, place), event),
        call_ensures(UiState::sync_mouse_position, (other, mode, place), motion),
    ensures
        !grabbed ==> event is None && *final(state) == *old(state),
        grabbed ==> event == motion && *final(state) == *final(other),
{
}

/// Every tick of the wheel is one event, and all go the same way: down where the scroll is positive.
pub proof fn ticks_are_counted(ticks: u32, positive: bool, events: Vec<InputEvent>)
    requires
        call_ensures(emit_scroll_buttons, (ticks, positive), events),
    ensures
        events.len() == ticks,
        forall|i: int|
            0 <= i < events.len() ==> {
                &&& (#[trigger] events[i]) is MouseWheel
                &&& events[i]->MouseWheel_0 is WheelDown <==> positive
                &&& events[i]->MouseWheel_0 is WheelUp <==> !positive
            },
{
}

}
