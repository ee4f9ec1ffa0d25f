//! One connection to a console: what it begins with, and what is done with what happens on it.

use vstd::prelude::*;

use super::clipboard::content::ClipboardContent;
use super::clipboard::content::ClipboardSelection;
use super::events::is_status;
use super::events::ViewerEvent;
use super::events::ViewerInput;
use super::input::input_needs_mouse_mode;
use super::input::is_motion;
use super::input::InputEvent;
use super::input::MouseButton;
use super::input::MouseMode;
use crate::error::Failure;
use crate::qemu::types::ConnectTarget;
use crate::text::concat2;
use crate::text::concat3;
use crate::text::concat4;
use crate::text::joined;
use crate::text::list_has;
use crate::text::number::decimal;
use crate::text::number::signed_decimal;
use crate::text::number::to_decimal;
use crate::text::number::to_signed_decimal;
use crate::text::texts;

verus! {

/// The interface of a console that takes keys.
pub const KEYBOARD_INTERFACE: &'static str = "org.qemu.Display1.Keyboard";

/// The interface of a console that takes mouse events.
pub const MOUSE_INTERFACE: &'static str = "org.qemu.Display1.Mouse";

/// What the window needs to know before it opens.
#[derive(Debug)]
pub struct ViewerReady {
    pub title: String,
    pub width: u32,
    pub height: u32,
    pub keyboard_available: bool,
    pub clipboard_available: bool,
    pub mouse_mode: MouseMode,
}

/// How a connection ended.
#[derive(Copy, Clone, Debug, PartialEq, Eq, Structural)]
pub enum SessionOutcome {
    Shutdown,
    Disconnected,
}

/// The console takes events through the interface.
pub open spec fn takes(target: ConnectTarget, interface: Seq<char>) -> bool {
    texts(target.console_interfaces@).contains(interface)
}

/// Whether the console has a mouse, whose mode has to be asked for.
pub fn mouse_available(target: &ConnectTarget) -> (available: bool)
    ensures
        available == takes(*target, MOUSE_INTERFACE@),
{
    list_has(&target.console_interfaces, MOUSE_INTERFACE)
}

/// The mouse mode to begin with. `probe` is what the mouse said, where there is one.
pub open spec fn first_mode(probe: Option<Result<bool, Failure>>) -> MouseMode {
    match probe {
        None => MouseMode::Disabled,
        Some(Ok(is_absolute)) => MouseMode::of(is_absolute),
        Some(Err(_)) => MouseMode::Relative,
    }
}

/// The mode that the mouse is taken to be in once it has answered, or failed to answer.
pub open spec fn mode_after(mode: MouseMode, answer: Result<bool, Failure>) -> MouseMode {
    match answer {
        Ok(is_absolute) => MouseMode::of(is_absolute),
        Err(_) => mode,
    }
}

/// The mode that the mouse has changed to.
pub open spec fn mode_news(mode: MouseMode, answer: Result<bool, Failure>) -> Option<MouseMode> {
    if mode_after(mode, answer) == mode {
        None
    } else {
        Some(mode_after(mode, answer))
    }
}

/// A connection.
#[derive(Debug)]
pub struct Session {
    mouse_mode: MouseMode,
    clipboard: bool,
}

/// What a connection begins with.
#[derive(Debug)]
pub struct SessionStart {
    /// The connection.
    pub session: Session,
    /// What the window needs to know before it opens.
    pub ready: ViewerReady,
    /// What the window is told once it is open.
    pub events: Vec<ViewerEvent>,
}

/// The status of a mouse whose mode could not be found out.
pub open spec fn mode_failure_text(failure: Seq<Seq<char>>) -> Seq<char> {
    "Could not detect mouse mode: "@ + joined(failure, ": "@)
}

/// The status of a connection that was made again.
pub open spec fn reconnected_text(vm_name: Seq<char>) -> Seq<char> {
    "Reconnected to `"@ + vm_name + "`. Waiting for the guest display..."@
}

/// What to do next.
#[derive(Debug)]
pub enum Step {
    Continue,
    End(SessionOutcome),
    ShareClipboard(ClipboardSelection, Option<ClipboardContent>),
    SetViewerFocus(bool),
    Forward(InputEvent),
}

/// What has happened.
#[derive(Debug)]
pub enum Signal {
    /// The program is to end.
    Shutdown,
    /// The console was asked whether it is still there.
    Probed(bool),
    /// The window is gone.
    InputClosed,
    /// The window has sent something.
    Input(ViewerInput),
}

/// What to do about an event that could not be sent.
#[derive(Debug)]
pub enum Recovery {
    Report(ViewerEvent),
    ProbeMouse,
}

/// The status of an event that could not be sent.
pub open spec fn forward_failure_text(failure: Seq<Seq<char>>) -> Seq<char> {
    "Input forwarding failed: "@ + joined(failure, ": "@)
}

fn forward_failure(failure: &Failure) -> (event: ViewerEvent)
    ensures
        is_status(event, forward_failure_text(failure@)),
{
    let reason = failure.in_full();
    ViewerEvent::Status(concat2("Input forwarding failed: ", reason.as_str()))
}

impl Session {
    /// The mode that the mouse is taken to be in.
    pub closed spec fn mode(&self) -> MouseMode {
        self.mouse_mode
    }

    /// The clipboard is shared.
    pub closed spec fn shares_clipboard(&self) -> bool {
        self.clipboard
    }

    /// Begins a connection. `first` is false where it is made again: the window is then open, and
    /// is told the mouse mode and that the connection is back.
    pub fn begin(
        target: &ConnectTarget,
        clipboard_available: bool,
        probe: Option<Result<bool, Failure>>,
        first: bool,
    ) -> (start: SessionStart)
        requires
            takes(*target, MOUSE_INTERFACE@) == (probe is Some),
        ensures
            start.session.mode() == first_mode(probe),
            start.session.shares_clipboard() == clipboard_available,
            start.ready.title@ == target.vm_name@ + " - QD2"@,
            start.ready.width == target.width,
            start.ready.height == target.height,
            start.ready.keyboard_available == takes(*target, KEYBOARD_INTERFACE@),
            start.ready.clipboard_available == clipboard_available,
            start.ready.mouse_mode == first_mode(probe),
            ({
                let told: int = if probe matches Some(Err(_)) {
                    1
                } else {
                    0
                };
                &&& start.events.len() == told + if first {
                    0int
                } else {
                    2int
                }
                &&& probe matches Some(Err(failure)) ==> is_status(
                    start.events@[0],
                    mode_failure_text(failure@),
                )
                &&& !first ==> start.events@[told] == ViewerEvent::MouseModeChanged(
                    first_mode(probe),
                )
                &&& !first ==> is_status(
                    start.events@[told + 1],
                    reconnected_text(target.vm_name@),
                )
            }),
    {
        let mut events: Vec<ViewerEvent> = Vec::new();
        let mouse_mode = match probe {
            None => MouseMode::Disabled,
            Some(Ok(is_absolute)) => MouseMode::from_is_absolute(is_absolute),
            Some(Err(failure)) => {
                let reason = failure.in_full();
                events.push(
                    ViewerEvent::Status(concat2("Could not detect mouse mode: ", reason.as_str())),
                );
                MouseMode::Relative
            },
        };
        if !first {
            events.push(ViewerEvent::MouseModeChanged(mouse_mode));
            events.push(
                ViewerEvent::Status(
                    concat3(
                        "Reconnected to `",
                        target.vm_name.as_str(),
                        "`. Waiting for the guest display...",
                    ),
                ),
            );
        }
        SessionStart {
            session: Session { mouse_mode, clipboard: clipboard_available },
            ready: ViewerReady {
                title: concat2(target.vm_name.as_str(), " - QD2"),
                width: target.width,
                height: target.height,
                keyboard_available: list_has(&target.console_interfaces, KEYBOARD_INTERFACE),
                clipboard_available,
                mouse_mode,
            },
            events,
        }
    }

    /// What to do about what has happened. A console that does not answer any more ends the
    /// connection; so do the end of the program and of the window. Without a shared clipboard what
    /// concerns it is dropped.
    pub fn step(&self, signal: Signal) -> (step: Step)
        ensures
            step == match signal {
                Signal::Shutdown => Step::End(SessionOutcome::Shutdown),
                Signal::InputClosed => Step::End(SessionOutcome::Shutdown),
                Signal::Probed(alive) => if alive {
                    Step::Continue
                } else {
                    Step::End(SessionOutcome::Disconnected)
                },
                Signal::Input(ViewerInput::Device(input)) => Step::Forward(input),
                Signal::Input(ViewerInput::ClipboardHostChanged(selection, content)) => if self.shares_clipboard() {
                    Step::ShareClipboard(selection, content)
                } else {
                    Step::Continue
                },
                Signal::Input(ViewerInput::ClipboardViewerFocused(focused)) => if self.shares_clipboard() {
                    Step::SetViewerFocus(focused)
                } else {
                    Step::Continue
                },
            },
    {
        match signal {
            Signal::Shutdown => Step::End(SessionOutcome::Shutdown),
            Signal::InputClosed => Step::End(SessionOutcome::Shutdown),
            Signal::Probed(alive) => if alive {
                Step::Continue
            } else {
                Step::End(SessionOutcome::Disconnected)
            },
            Signal::Input(ViewerInput::Device(input)) => Step::Forward(input),
            Signal::Input(ViewerInput::ClipboardHostChanged(selection, content)) => {
                if self.clipboard {
                    Step::ShareClipboard(selection, content)
                } else {
                    Step::Continue
                }
            },
            Signal::Input(ViewerInput::ClipboardViewerFocused(focused)) => {
                if self.clipboard {
                    Step::SetViewerFocus(focused)
                } else {
                    Step::Continue
                }
            },
        }
    }

    /// What to do about an event that could not be sent. Motion may have failed because the mouse
    /// has changed its mode.
    pub fn input_failed(&self, input: &InputEvent, failure: &Failure) -> (recovery: Recovery)
        ensures
            if is_motion(*input) {
                recovery == Recovery::ProbeMouse
            } else {
                recovery matches Recovery::Report(event) && is_status(
                    event,
                    forward_failure_text(failure@),
                )
            },
    {
        if input_needs_mouse_mode(input) {
            Recovery::ProbeMouse
        } else {
            Recovery::Report(forward_failure(failure))
        }
    }

    /// What the window is told once the mouse has been asked for its mode again: the new mode, or
    /// that the event failed.
    pub fn mouse_probed(&mut self, failure: &Failure, probe: Result<bool, Failure>) -> (event:
        ViewerEvent)
        ensures
            final(self).shares_clipboard() == old(self).shares_clipboard(),
            final(self).mode() == mode_after(old(self).mode(), probe),
            match (mode_news(old(self).mode(), probe), probe) {
                (Some(mode), _) => event == ViewerEvent::MouseModeChanged(mode),
                (None, Ok(_)) => is_status(event, forward_failure_text(failure@)),
                (None, Err(mode_failure)) => is_status(
                    event,
                    forward_failure_text(failure@) + "\n\nCould not re-check the mouse mode: "@
                        + joined(mode_failure@, ": "@),
                ),
            },
    {
        match probe {
            Ok(is_absolute) => {
                let detected = MouseMode::from_is_absolute(is_absolute);
                if detected != self.mouse_mode {
                    self.mouse_mode = detected;
                    ViewerEvent::MouseModeChanged(detected)
                } else {
                    forward_failure(failure)
                }
            },
            Err(mode_failure) => {
                let reason = failure.in_full();
                let mode_reason = mode_failure.in_full();
                ViewerEvent::Status(
                    concat4(
                        "Input forwarding failed: ",
                        reason.as_str(),
                        "\n\nCould not re-check the mouse mode: ",
                        mode_reason.as_str(),
                    ),
                )
            },
        }
    }
}

/// A change of the mouse mode is told once: asked again with the same answer, the mouse has no news.
pub proof fn mode_changes_are_told_once(mode: MouseMode, answer: Result<bool, Failure>)
    ensures
        mode_news(mode_after(mode, answer), answer) is None,
{
}

/// The status of a clipboard that could not be shared.
pub fn clipboard_failure(failure: &Failure) -> (event: ViewerEvent)
    ensures
        is_status(event, "Clipboard sharing failed: "@ + joined(failure@, ": "@)),
{
    let reason = failure.in_full();
    ViewerEvent::Status(concat2("Clipboard sharing failed: ", reason.as_str()))
}

/// One call of the guest's keyboard or mouse.
#[derive(Copy, Clone, Debug, PartialEq, Eq, Structural)]
pub enum DeviceCall {
    KeyPress(u32),
    KeyRelease(u32),
    ButtonPress(MouseButton),
    ButtonRelease(MouseButton),
    MoveTo { x: u32, y: u32 },
    MoveBy { dx: i32, dy: i32 },
}

/// The calls that an event takes, in order. A tick of the wheel is a press and a release.
pub open spec fn calls_for(input: InputEvent) -> Seq<DeviceCall> {
    match input {
        InputEvent::KeyPress(qnum) => seq![DeviceCall::KeyPress(qnum)],
        InputEvent::KeyRelease(qnum) => seq![DeviceCall::KeyRelease(qnum)],
        InputEvent::MousePress(button) => seq![DeviceCall::ButtonPress(button)],
        InputEvent::MouseRelease(button) => seq![DeviceCall::ButtonRelease(button)],
        InputEvent::MouseAbs { x, y } => seq![DeviceCall::MoveTo { x, y }],
        InputEvent::MouseRel { dx, dy } => seq![DeviceCall::MoveBy { dx, dy }],
        InputEvent::MouseWheel(button) => seq![
            DeviceCall::ButtonPress(button),
            DeviceCall::ButtonRelease(button),
        ],
    }
}

/// The calls that an event takes, in order.
pub fn device_calls(input: InputEvent) -> (calls: Vec<DeviceCall>)
    ensures
        calls@ == calls_for(input),
{
    let mut calls: Vec<DeviceCall> = Vec::new();
    match input {
        InputEvent::KeyPress(qnum) => calls.push(DeviceCall::KeyPress(qnum)),
        InputEvent::KeyRelease(qnum) => calls.push(DeviceCall::KeyRelease(qnum)),
        InputEvent::MousePress(button) => calls.push(DeviceCall::ButtonPress(button)),
        InputEvent::MouseRelease(button) => calls.push(DeviceCall::ButtonRelease(button)),
        InputEvent::MouseAbs { x, y } => calls.push(DeviceCall::MoveTo { x, y }),
        InputEvent::MouseRel { dx, dy } => calls.push(DeviceCall::MoveBy { dx, dy }),
        InputEvent::MouseWheel(button) => {
            calls.push(DeviceCall::ButtonPress(button));
            calls.push(DeviceCall::ButtonRelease(button));
        },
    }
    assert(calls@ =~= calls_for(input));
    calls
}

/// The name of a button.
pub open spec fn button_name(button: MouseButton) -> Seq<char> {
    match button {
        MouseButton::Left => "Left"@,
        MouseButton::Middle => "Middle"@,
        MouseButton::Right => "Right"@,
        MouseButton::WheelUp => "WheelUp"@,
        MouseButton::WheelDown => "WheelDown"@,
        MouseButton::Side => "Side"@,
        MouseButton::Extra => "Extra"@,
    }
}

fn name_button(button: MouseButton) -> (name: &'static str)
    ensures
        name@ == button_name(button),
{
    match button {
        MouseButton::Left => "Left",
        MouseButton::Middle => "Middle",
        MouseButton::Right => "Right",
        MouseButton::WheelUp => "WheelUp",
        MouseButton::WheelDown => "WheelDown",
        MouseButton::Side => "Side",
        MouseButton::Extra => "Extra",
    }
}

/// The message for a call that failed while an event was sent.
pub open spec fn call_failure_text(input: InputEvent, call: DeviceCall) -> Seq<char> {
    match (input, call) {
        (InputEvent::MouseWheel(_), DeviceCall::ButtonPress(button)) => {
            "failed to send mouse wheel press for "@ + button_name(button)
        },
        (InputEvent::MouseWheel(_), DeviceCall::ButtonRelease(button)) => {
            "failed to send mouse wheel release for "@ + button_name(button)
        },
        (_, DeviceCall::KeyPress(qnum)) => "failed to send key press for qnum "@ + decimal(
            qnum as nat,
        ),
        (_, DeviceCall::KeyRelease(qnum)) => "failed to send key release for qnum "@ + decimal(
            qnum as nat,
        ),
        (_, DeviceCall::ButtonPress(button)) => "failed to send mouse press for "@ + button_name(
            button,
        ),
        (_, DeviceCall::ButtonRelease(button)) => "failed to send mouse release for "@
            + button_name(button),
        (_, DeviceCall::MoveTo { x, y }) => "failed to move the absolute mouse to "@ + decimal(
            x as nat,
        ) + ","@ + decimal(y as nat),
        (_, DeviceCall::MoveBy { dx, dy }) => "failed to move the relative mouse by "@
            + signed_decimal(dx as int) + ","@ + signed_decimal(dy as int),
    }
}

/// The failure of a call while an event was sent, on top of the cause.
pub fn call_failure(input: InputEvent, call: DeviceCall, cause: Failure) -> (failure: Failure)
    ensures
        failure@ == seq![call_failure_text(input, call)] + cause@,
{
    let wheel = matches!(input, InputEvent::MouseWheel(_));
    let message = match call {
        DeviceCall::KeyPress(qnum) => {
            let number = to_decimal(qnum as u64);
            concat2("failed to send key press for qnum ", number.as_str())
        },
        DeviceCall::KeyRelease(qnum) => {
            let number = to_decimal(qnum as u64);
            concat2("failed to send key release for qnum ", number.as_str())
        },
        DeviceCall::ButtonPress(button) => {
            if wheel {
                concat2("failed to send mouse wheel press for ", name_button(button))
            } else {
                concat2("failed to send mouse press for ", name_button(button))
            }
        },
        DeviceCall::ButtonRelease(button) => {
            if wheel {
                concat2("failed to send mouse wheel release for ", name_button(button))
            } else {
                concat2("failed to send mouse release for ", name_button(button))
            }
        },
        DeviceCall::MoveTo { x, y } => {
            let across = to_decimal(x as u64);
            let down = to_decimal(y as u64);
            concat4("failed to move the absolute mouse to ", across.as_str(), ",", down.as_str())
        },
        DeviceCall::MoveBy { dx, dy } => {
            let across = to_signed_decimal(dx as i64);
            let down = to_signed_decimal(dy as i64);
            concat4("failed to move the relative mouse by ", across.as_str(), ",", down.as_str())
        },
    };
    cause.context(message)
}

/// What the calls have done to the guest's keyboard and mouse: what is held down, where the pointer
/// was put last, and how far it was moved since.
#[verifier::ext_equal]
pub struct DeviceState {
    pub keys: Set<u32>,
    pub buttons: Set<MouseButton>,
    pub place: Option<(u32, u32)>,
    pub moved: (int, int),
}

impl DeviceState {
    /// One call later.
    pub open spec fn after_call(self, call: DeviceCall) -> DeviceState {
        match call {
            DeviceCall::KeyPress(qnum) => DeviceState { keys: self.keys.insert(qnum), ..self },
            DeviceCall::KeyRelease(qnum) => DeviceState { keys: self.keys.remove(qnum), ..self },
            DeviceCall::ButtonPress(button) => DeviceState {
                buttons: self.buttons.insert(button),
                ..self
            },
            DeviceCall::ButtonRelease(button) => DeviceState {
                buttons: self.buttons.remove(button),
                ..self
            },
            DeviceCall::MoveTo { x, y } => DeviceState {
                place: Some((x, y)),
                moved: (0, 0),
                ..self
            },
            DeviceCall::MoveBy { dx, dy } => DeviceState {
                moved: (self.moved.0 + dx, self.moved.1 + dy),
                ..self
            },
        }
    }

    /// Some calls later.
    pub open spec fn after_calls(self, calls: Seq<DeviceCall>) -> DeviceState
        decreases calls.len(),
    {
        if calls.len() == 0 {
            self
        } else {
            self.after_calls(calls.drop_last()).after_call(calls.last())
        }
    }
}

/// How often a call is made.
pub open spec fn times(calls: Seq<DeviceCall>, call: DeviceCall) -> nat
    decreases calls.len(),
{
    if calls.len() == 0 {
        0
    } else {
        times(calls.drop_last(), call) + if calls.last() == call {
            1nat
        } else {
            0nat
        }
    }
}

/// The calls for an event do to the guest what the user did: a key or button that goes down stays
/// down until it is let go of, the pointer goes where it was put or as far as it was moved, and
/// nothing else changes. A tick of the wheel is one press of its button, which is up afterwards.
pub proof fn guests_see_what_the_user_did(input: InputEvent, calls: Vec<DeviceCall>, before: DeviceState)
    requires
        call_ensures(device_calls, (input,), calls),
    ensures
        ({
            let after = before.after_calls(calls@);
            &&& forall|key: u32| #[trigger]
                after.keys.contains(key) == if input == InputEvent::KeyPress(key) {
                    true
                } else if input == InputEvent::KeyRelease(key) {
                    false
                } else {
                    before.keys.contains(key)
                }
            &&& forall|button: MouseButton| #[trigger]
                after.buttons.contains(button) == if input == InputEvent::MousePress(button) {
                    true
                } else if input == InputEvent::MouseRelease(button) || input
                    == InputEvent::MouseWheel(button) {
                    false
                } else {
                    before.buttons.contains(button)
                }
            &&& forall|button: MouseButton|
                #[trigger] times(calls@, DeviceCall::ButtonPress(button)) == if input
                    == InputEvent::MousePress(button) || input == InputEvent::MouseWheel(button) {
                    1nat
                } else {
                    0nat
                }
            &&& forall|key: u32|
                #[trigger] times(calls@, DeviceCall::KeyPress(key)) == if input
                    == InputEvent::KeyPress(key) {
                    1nat
                } else {
                    0nat
                }
            &&& (after.place, after.moved) == match input {
                InputEvent::MouseAbs { x, y } => (Some((x, y)), (0int, 0int)),
                InputEvent::MouseRel { dx, dy } => (
                    before.place,
                    (before.moved.0 + dx, before.moved.1 + dy),
                ),
                _ => (before.place, before.moved),
            }
        }),
{
    reveal_with_fuel(DeviceState::after_calls, 3);
    reveal_with_fuel(times, 3);
    if calls.len() == 2 {
        assert(calls@.drop_last().drop_last() =~= Seq::<DeviceCall>::empty());
    } else if calls.len() == 1 {
        assert(calls@.drop_last() =~= Seq::<DeviceCall>::empty());
    }
}

/// What the calls for a list of events have done.
pub open spec fn after_events(before: DeviceState, events: Seq<InputEvent>) -> DeviceState
    decreases events.len(),
{
    if events.len() == 0 {
        before
    } else {
        after_events(before, events.drop_last()).after_calls(calls_for(events.last()))
    }
}

/// After a list of events the guest holds exactly what the user holds: a key is down where the last
/// event about it was a press, a button likewise, and what no event was about is as it was before.
pub proof fn guests_hold_what_the_user_holds(before: DeviceState, events: Seq<InputEvent>, last: int)
    requires
        0 <= last < events.len(),
    ensures
        forall|key: u32|
            (forall|i: int|
                last < i < events.len() ==> (#[trigger] events[i]) != InputEvent::KeyPress(key)
                    && events[i] != InputEvent::KeyRelease(key)) ==> {
                &&& events[last] == InputEvent::KeyPress(key) ==> (#[trigger] after_events(
                    before,
                    events,
                ).keys.contains(key))
                &&& events[last] == InputEvent::KeyRelease(key) ==> !after_events(
                    before,
                    events,
                ).keys.contains(key)
            },
        forall|button: MouseButton|
            (forall|i: int|
                last < i < events.len() ==> (#[trigger] events[i]) != InputEvent::MousePress(button)
                    && events[i] != InputEvent::MouseRelease(button) && events[i]
                    != InputEvent::MouseWheel(button)) ==> {
                &&& events[last] == InputEvent::MousePress(button) ==> (#[trigger] after_events(
                    before,
                    events,
                ).buttons.contains(button))
                &&& events[last] == InputEvent::MouseRelease(button) ==> !after_events(
                    before,
                    events,
                ).buttons.contains(button)
            },
    decreases events.len(),
{
    let end = events.last();
    let sooner = events.drop_last();
    reveal_with_fuel(DeviceState::after_calls, 3);
    let calls = calls_for(end);
    if calls.len() == 2 {
        assert(calls.drop_last().drop_last() =~= Seq::<DeviceCall>::empty());
        assert(calls.drop_last() =~= seq![calls[0]]);
    } else {
        assert(calls.drop_last() =~= Seq::<DeviceCall>::empty());
    }
    if last < events.len() - 1 {
        guests_hold_what_the_user_holds(before, sooner, last);
        assert forall|i: int| last < i < sooner.len() implies #[trigger] sooner[i] == events[i] by {}
        assert(events[events.len() - 1] == end);
    }
}

/// The device events of the window reach the guest as they are, whatever else is going on, and
/// nothing else does. Only an end that was asked for or a console that is gone ends the connection.
pub proof fn input_reaches_the_guest(session: Session, signal: Signal, step: Step)
    requires
        call_ensures(Session::step, (&session, signal), step),
    ensures
        signal matches Signal::Input(ViewerInput::Device(input)) ==> step == Step::Forward(input),
        step matches Step::Forward(input) ==> signal == Signal::Input(ViewerInput::Device(input)),
        step is End <==> signal is Shutdown || signal is InputClosed || signal == Signal::Probed(
            false,
        ),
        step == Step::End(SessionOutcome::Disconnected) <==> signal == Signal::Probed(false),
        session.shares_clipboard() ==> (signal matches Signal::Input(
            ViewerInput::ClipboardHostChanged(selection, content),
        ) ==> step == Step::ShareClipboard(selection, content)),
        session.shares_clipboard() ==> (signal matches Signal::Input(
            ViewerInput::ClipboardViewerFocused(focused),
        ) ==> step == Step::SetViewerFocus(focused)),
        step is ShareClipboard || step is SetViewerFocus ==> session.shares_clipboard() && signal
            is Input,
{
}

/// A mouse that says it is absolute is taken for one, one that says it is not for a relative one,
/// and where there is no mouse it is never moved.
pub proof fn mice_are_taken_at_their_word(probe: Option<Result<bool, Failure>>)
    ensures
        first_mode(probe) is Disabled <==> probe is None,
        first_mode(probe) is Absolute <==> probe == Some(Ok::<bool, Failure>(true)),
        forall|mode: MouseMode, answer: Result<bool, Failure>| #[trigger]
            mode_after(mode, answer) is Absolute <==> answer == Ok::<bool, Failure>(true) || (answer
                is Err && mode is Absolute),
        forall|mode: MouseMode, answer: Result<bool, Failure>| #[trigger]
            mode_after(mode, answer) is Relative <==> answer == Ok::<bool, Failure>(false) || (
            answer is Err && mode is Relative),
        forall|mode: MouseMode, answer: Result<bool, Failure>| #[trigger]
            mode_news(mode, answer) is Some <==> answer is Ok && (mode is Disabled || answer->Ok_0
                != (mode is Absolute)),
{
}

/// A connection begins with what the console is: its size, its keyboard and mouse as its interfaces
/// say, the clipboard where it is shared, and the machine's name in the title. Only a connection
/// that is made again says so, and a mouse whose mode is not known is told of.
pub proof fn connections_begin_with_the_console(
    target: ConnectTarget,
    clipboard_available: bool,
    probe: Option<Result<bool, Failure>>,
    first: bool,
    start: SessionStart,
    mouse: bool,
)
    requires
        takes(target, MOUSE_INTERFACE@) == (probe is Some),
        call_ensures(Session::begin, (&target, clipboard_available, probe, first), start),
        call_ensures(mouse_available, (&target,), mouse),
    ensures
        (start.ready.width, start.ready.height) == (target.width, target.height),
        start.ready.keyboard_available <==> texts(target.console_interfaces@).contains(
            "org.qemu.Display1.Keyboard"@,
        ),
        mouse <==> texts(target.console_interfaces@).contains("org.qemu.Display1.Mouse"@),
        start.ready.mouse_mode is Disabled <==> !mouse,
        start.ready.mouse_mode is Absolute <==> probe == Some(Ok::<bool, Failure>(true)),
        start.session.mode() == start.ready.mouse_mode,
        start.ready.clipboard_available == clipboard_available,
        start.session.shares_clipboard() == clipboard_available,
        start.ready.title@.len() > target.vm_name@.len(),
        start.ready.title@.take(target.vm_name@.len() as int) == target.vm_name@,
        ({
            let unknown = probe is Some && probe->0 is Err;
            &&& start.events.len() == (if unknown {
                1int
            } else {
                0
            }) + (if first {
                0int
            } else {
                2
            })
            &&& unknown ==> start.events@[0] is Status
            &&& !first ==> exists|i: int|
                0 <= i < start.events.len() && #[trigger] start.events@[i]
                    == ViewerEvent::MouseModeChanged(start.ready.mouse_mode)
        }),
{
    reveal_strlit(" - QD2");
    assert(start.ready.title@.take(target.vm_name@.len() as int) =~= target.vm_name@);
    if !first {
        let told: int = if probe is Some && probe->0 is Err {
            1
        } else {
            0
        };
        assert(start.events@[told] == ViewerEvent::MouseModeChanged(start.ready.mouse_mode));
    }
}

/// Where an event could not be sent, the mouse is asked for its mode exactly after motion, and any
/// other failure is reported. A mode that turns out to be another is told and kept.
pub proof fn failed_motion_asks_the_mouse(
    session: Session,
    input: InputEvent,
    failure: Failure,
    recovery: Recovery,
    needs: bool,
    asked: &mut Session,
    probe: Result<bool, Failure>,
    event: ViewerEvent,
)
    requires
        call_ensures(Session::input_failed, (&session, &input, &failure), recovery),
        call_ensures(super::input::input_needs_mouse_mode, (&input,), needs),
        call_ensures(Session::mouse_probed, (asked, &failure, probe), event),
    ensures
        needs <==> input is MouseAbs || input is MouseRel,
        recovery is ProbeMouse <==> needs,
        recovery matches Recovery::Report(told) ==> told is Status,
        probe == Ok::<bool, Failure>(true) ==> final(asked).mode() is Absolute,
        probe == Ok::<bool, Failure>(false) ==> final(asked).mode() is Relative,
        probe is Err ==> final(asked).mode() == old(asked).mode(),
        event is MouseModeChanged <==> final(asked).mode() != old(asked).mode(),
        event matches ViewerEvent::MouseModeChanged(mode) ==> mode == final(asked).mode(),
        !(event is MouseModeChanged) ==> event is Status,
        final(asked).shares_clipboard() == old(asked).shares_clipboard(),
{
}

/// The failure of a call is told on top of its cause, and names the key or the button that it was
/// about.
pub proof fn failed_calls_name_their_subject(
    input: InputEvent,
    call: DeviceCall,
    cause: Failure,
    failure: Failure,
)
    requires
        call_ensures(call_failure, (input, call, cause), failure),
    ensures
        failure@.len() == cause@.len() + 1,
        failure@.skip(1) == cause@,
        call matches DeviceCall::KeyPress(qnum) ==> ends_with(failure@[0], decimal(qnum as nat)),
        call matches DeviceCall::KeyRelease(qnum) ==> ends_with(failure@[0], decimal(qnum as nat)),
        call matches DeviceCall::ButtonPress(button) ==> ends_with(
            failure@[0],
            button_name(button),
        ),
        call matches DeviceCall::ButtonRelease(button) ==> ends_with(
            failure@[0],
            button_name(button),
        ),
{
    assert(failure@.skip(1) =~= cause@);
    let text = failure@[0];
    match call {
        DeviceCall::KeyPress(qnum) => {
            let end = decimal(qnum as nat);
            assert(text.skip(text.len() - end.len()) =~= end);
        },
        DeviceCall::KeyRelease(qnum) => {
            let end = decimal(qnum as nat);
            assert(text.skip(text.len() - end.len()) =~= end);
        },
        DeviceCall::ButtonPress(button) => {
            let end = button_name(button);
            assert(text.skip(text.len() - end.len()) =~= end);
        },
        DeviceCall::ButtonRelease(button) => {
            let end = button_name(button);
            assert(text.skip(text.len() - end.len()) =~= end);
        },
        _ => {},
    }
}

/// The text ends with the other.
pub open spec fn ends_with(text: Seq<char>, end: Seq<char>) -> bool {
    text.len() >= end.len() && text.skip(text.len() - end.len()) == end
}

/// Each button goes by its own name.
pub proof fn buttons_go_by_their_names(button: MouseButton)
    ensures
        button_name(button) == "Left"@ <==> button is Left,
        button_name(button) == "Middle"@ <==> button is Middle,
        button_name(button) == "Right"@ <==> button is Right,
        button_name(button) == "WheelUp"@ <==> button is WheelUp,
        button_name(button) == "WheelDown"@ <==> button is WheelDown,
        button_name(button) == "Side"@ <==> button is Side,
        button_name(button) == "Extra"@ <==> button is Extra,
{
    reveal_strlit("Left");
    reveal_strlit("Middle");
    reveal_strlit("Right");
    reveal_strlit("WheelUp");
    reveal_strlit("WheelDown");
    reveal_strlit("Side");
    reveal_strlit("Extra");
    assert("Left"@.len() == 4 && "Middle"@.len() == 6 && "Right"@.len() == 5 && "WheelUp"@.len()
        == 7 && "WheelDown"@.len() == 9 && "Side"@.len() == 4 && "Extra"@.len() == 5);
    assert("Left"@[0] == 'L' && "Side"@[0] == 'S' && "Right"@[0] == 'R' && "Extra"@[0] == 'E');
}

}
