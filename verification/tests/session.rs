use qd2::error::Failure;
use qd2::qemu::types::ConnectTarget;
use qd2::qemu::types::VmSummary;
use qd2::viewer::clipboard::content::ClipboardSelection;
use qd2::viewer::events::ViewerEvent;
use qd2::viewer::events::ViewerInput;
use qd2::viewer::framebuffer::FramePatch;
use qd2::viewer::framebuffer::FrameSnapshot;
use qd2::viewer::hotkeys::Action;
use qd2::viewer::hotkeys::ViewerHotkeys;
use qd2::viewer::hotkeys::ALT_MASK;
use qd2::viewer::hotkeys::CONTROL_MASK;
use qd2::viewer::hotkeys::KEY_F11;
use qd2::viewer::hotkeys::KEY_R;
use qd2::viewer::input::InputEvent;
use qd2::viewer::input::MouseButton;
use qd2::viewer::input::MouseMode;
use qd2::viewer::mouse::UiState;
use qd2::viewer::reconnect::send_status_if_changed;
use qd2::viewer::reconnect::ReconnectPlan;
use qd2::viewer::reconnect::Supervisor;
use qd2::viewer::reconnect::SupervisorStep;
use qd2::viewer::session::call_failure;
use qd2::viewer::session::clipboard_failure;
use qd2::viewer::session::device_calls;
use qd2::viewer::session::mouse_available;
use qd2::viewer::session::DeviceCall;
use qd2::viewer::session::Recovery;
use qd2::viewer::session::Session;
use qd2::viewer::session::SessionOutcome;
use qd2::viewer::session::Signal;
use qd2::viewer::session::Step;
use qd2::viewer::window::buffer_refreshed;
use qd2::viewer::window::chosen_vm;
use qd2::viewer::window::chrome_plan;
use qd2::viewer::window::scanout_shown;
use qd2::viewer::window::status_line;
use qd2::viewer::window::suggested_window_size;
use qd2::viewer::window::vm_card;
use qd2::viewer::window::window_action;
use qd2::viewer::window::BufferSlot;
use qd2::viewer::window::EventBatch;
use qd2::viewer::window::Presentation;
use qd2::viewer::window::ScanoutOutcome;
use qd2::viewer::window::WindowAction;
use qd2::viewer::window::KEY_ESCAPE;

fn target(interfaces: &[&str]) -> ConnectTarget {
    ConnectTarget {
        source_address: None,
        owner: ":1.42".to_owned(),
        vm_name: "demo".to_owned(),
        vm_uuid: "u".to_owned(),
        console_id: 3,
        width: 1280,
        height: 720,
        console_interfaces: interfaces.iter().map(|name| name.to_string()).collect(),
        warnings: Vec::new(),
    }
}

fn status(event: &ViewerEvent) -> &str {
    match event {
        ViewerEvent::Status(message) => message,
        other => panic!("no status: {other:?}"),
    }
}

#[test]
fn a_session_begins_with_what_the_console_has() {
    let bare = target(&[]);
    assert!(!mouse_available(&bare));
    let start = Session::begin(&bare, true, None, true);
    assert_eq!(start.ready.title, "demo - QD2");
    assert_eq!((start.ready.width, start.ready.height), (1280, 720));
    assert!(!start.ready.keyboard_available);
    assert!(start.ready.clipboard_available);
    assert_eq!(start.ready.mouse_mode, MouseMode::Disabled);
    assert!(start.events.is_empty());

    let full = target(&["org.qemu.Display1.Keyboard", "org.qemu.Display1.Mouse"]);
    assert!(mouse_available(&full));
    let start = Session::begin(&full, false, Some(Ok(true)), true);
    assert!(start.ready.keyboard_available);
    assert_eq!(start.ready.mouse_mode, MouseMode::Absolute);

    let start = Session::begin(&full, false, Some(Err(Failure::of("no answer"))), false);
    assert_eq!(start.ready.mouse_mode, MouseMode::Relative);
    assert_eq!(start.events.len(), 3);
    assert_eq!(
        status(&start.events[0]),
        "Could not detect mouse mode: no answer"
    );
    assert!(matches!(
        start.events[1],
        ViewerEvent::MouseModeChanged(MouseMode::Relative)
    ));
    assert_eq!(
        status(&start.events[2]),
        "Reconnected to `demo`. Waiting for the guest display..."
    );
}

#[test]
fn a_session_ends_with_the_program_the_window_or_the_console() {
    let session = Session::begin(&target(&[]), false, None, true).session;
    assert!(matches!(
        session.step(Signal::Shutdown),
        Step::End(SessionOutcome::Shutdown)
    ));
    assert!(matches!(
        session.step(Signal::InputClosed),
        Step::End(SessionOutcome::Shutdown)
    ));
    assert!(matches!(session.step(Signal::Probed(true)), Step::Continue));
    assert!(matches!(
        session.step(Signal::Probed(false)),
        Step::End(SessionOutcome::Disconnected)
    ));
}

#[test]
fn clipboards_are_shared_only_where_there_is_one() {
    let without = Session::begin(&target(&[]), false, None, true).session;
    let with = Session::begin(&target(&[]), true, None, true).session;
    let change = || {
        Signal::Input(ViewerInput::ClipboardHostChanged(
            ClipboardSelection::Primary,
            None,
        ))
    };
    assert!(matches!(without.step(change()), Step::Continue));
    assert!(matches!(
        with.step(change()),
        Step::ShareClipboard(ClipboardSelection::Primary, None)
    ));
    let focus = || Signal::Input(ViewerInput::ClipboardViewerFocused(true));
    assert!(matches!(without.step(focus()), Step::Continue));
    assert!(matches!(with.step(focus()), Step::SetViewerFocus(true)));
    let key = Signal::Input(ViewerInput::Device(InputEvent::KeyPress(30)));
    assert!(matches!(
        without.step(key),
        Step::Forward(InputEvent::KeyPress(30))
    ));
    assert_eq!(
        status(&clipboard_failure(&Failure::of("gone"))),
        "Clipboard sharing failed: gone"
    );
}

#[test]
fn motion_that_fails_asks_the_mouse_again() {
    let console = target(&["org.qemu.Display1.Mouse"]);
    let mut session = Session::begin(&console, false, Some(Ok(false)), true).session;
    let failure = Failure::of("refused").context("no motion".to_owned());

    let step = InputEvent::MouseRel { dx: 1, dy: 0 };
    assert!(matches!(
        session.input_failed(&step, &failure),
        Recovery::ProbeMouse
    ));
    assert!(matches!(
        session.input_failed(&InputEvent::KeyPress(1), &failure),
        Recovery::Report(ViewerEvent::Status(text))
            if text == "Input forwarding failed: no motion: refused"
    ));

    assert!(matches!(
        session.mouse_probed(&failure, Ok(true)),
        ViewerEvent::MouseModeChanged(MouseMode::Absolute)
    ));
    assert_eq!(
        status(&session.mouse_probed(&failure, Ok(true))),
        "Input forwarding failed: no motion: refused"
    );
    assert_eq!(
        status(&session.mouse_probed(&failure, Err(Failure::of("silent")))),
        "Input forwarding failed: no motion: refused\n\nCould not re-check the mouse mode: silent"
    );
}

#[test]
fn events_become_calls() {
    assert_eq!(
        device_calls(InputEvent::KeyRelease(30)),
        vec![DeviceCall::KeyRelease(30)]
    );
    assert_eq!(
        device_calls(InputEvent::MouseWheel(MouseButton::WheelUp)),
        vec![
            DeviceCall::ButtonPress(MouseButton::WheelUp),
            DeviceCall::ButtonRelease(MouseButton::WheelUp)
        ]
    );
    let texts = [
        (InputEvent::KeyPress(30), "failed to send key press for qnum 30"),
        (InputEvent::KeyRelease(30), "failed to send key release for qnum 30"),
        (
            InputEvent::MousePress(MouseButton::Left),
            "failed to send mouse press for Left",
        ),
        (
            InputEvent::MouseRelease(MouseButton::Extra),
            "failed to send mouse release for Extra",
        ),
        (
            InputEvent::MouseAbs { x: 4, y: 5 },
            "failed to move the absolute mouse to 4,5",
        ),
        (
            InputEvent::MouseRel { dx: -4, dy: 5 },
            "failed to move the relative mouse by -4,5",
        ),
        (
            InputEvent::MouseWheel(MouseButton::WheelDown),
            "failed to send mouse wheel press for WheelDown",
        ),
    ];
    for (event, text) in texts {
        let failure = call_failure(event, device_calls(event)[0], Failure::of("gone"));
        assert_eq!(failure.in_full(), format!("{text}: gone"));
    }
    let wheel = InputEvent::MouseWheel(MouseButton::WheelDown);
    assert_eq!(
        call_failure(wheel, device_calls(wheel)[1], Failure::of("gone")).to_string(),
        "failed to send mouse wheel release for WheelDown"
    );
}

#[test]
fn a_lost_machine_is_waited_for() {
    let mut supervisor = Supervisor::new(&target(&[]), None);
    let step = supervisor.session_ended(Ok(SessionOutcome::Disconnected));
    assert!(matches!(
        step,
        SupervisorStep::Wait(Some(ViewerEvent::Status(text)))
            if text == "Connection to `demo` was lost. Waiting for the VM to come back..."
    ));
    assert!(matches!(supervisor.waited(true), SupervisorStep::Stop));
    assert!(matches!(
        supervisor.waited(false),
        SupervisorStep::Resolve { address: None, uuid, console_id: 3 } if uuid == "u"
    ));

    let step = supervisor.resolved(Err(Failure::of("not yet")));
    assert!(matches!(
        step,
        SupervisorStep::Wait(Some(ViewerEvent::Status(text)))
            if text == "Connection to `demo` was lost. Waiting for the VM to come back...\nLast reconnect error: not yet\nQD2 will keep auto-discovering the VM by UUID while it restarts."
    ));
    assert!(matches!(
        supervisor.resolved(Err(Failure::of("not yet"))),
        SupervisorStep::Wait(None)
    ));
    assert!(matches!(
        supervisor.resolved(Err(Failure::of("still not"))),
        SupervisorStep::Wait(Some(_))
    ));
    assert!(matches!(
        supervisor.resolved(Ok(target(&[]))),
        SupervisorStep::RunSession(found) if found.vm_uuid == "u"
    ));
    assert!(matches!(
        supervisor.session_ended(Err(Failure::of("still not"))),
        SupervisorStep::Wait(Some(_))
    ));
    assert!(matches!(
        supervisor.session_ended(Ok(SessionOutcome::Shutdown)),
        SupervisorStep::Stop
    ));
}

#[test]
fn a_first_connection_that_fails_is_reported() {
    let mut supervisor = Supervisor::new(&target(&[]), Some("addr".to_owned()));
    assert!(matches!(
        supervisor.session_ended(Err(Failure::of("refused"))),
        SupervisorStep::ReportStartup(failure) if failure.to_string() == "refused"
    ));

    let plan = ReconnectPlan::new(&target(&[]), Some("addr".to_owned()));
    assert_eq!(
        plan.error_message(&Failure::of("refused")),
        "Connection to `demo` was lost. Trying to reconnect on `addr`.\nIf the VM restarted on a new private D-Bus socket, rerun QD2 without `--address` or pass the new address.\nLast reconnect error: refused\nQD2 will keep retrying the same explicit address until the VM returns there."
    );

    let mut last = None;
    assert!(send_status_if_changed(&mut last, "a".to_owned()).is_some());
    assert!(send_status_if_changed(&mut last, "a".to_owned()).is_none());
    assert!(send_status_if_changed(&mut last, "b".to_owned()).is_some());
    assert_eq!(last.as_deref(), Some("b"));
}

fn frame(width: u32) -> FrameSnapshot {
    FrameSnapshot {
        width,
        height: 1,
        stride: 4 * width as usize,
        data: vec![0; 4 * width as usize],
    }
}

fn patch(x: u32) -> FramePatch {
    FramePatch {
        x,
        y: 0,
        width: 1,
        height: 1,
        stride: 4,
        data: vec![0; 4],
    }
}

#[test]
fn the_last_picture_and_the_changes_after_it_count() {
    let mut batch = EventBatch::new();
    batch.add_event(ViewerEvent::FramePatch(patch(1)));
    batch.add_event(ViewerEvent::Frame(frame(1)));
    batch.add_event(ViewerEvent::FramePatch(patch(2)));
    batch.add_event(ViewerEvent::Frame(frame(2)));
    batch.add_event(ViewerEvent::Status("first".to_owned()));
    batch.add_event(ViewerEvent::FramePatch(patch(3)));
    batch.add_event(ViewerEvent::Status("second".to_owned()));
    batch.add_event(ViewerEvent::FramePatch(patch(4)));
    batch.add_event(ViewerEvent::MouseModeChanged(MouseMode::Absolute));
    batch.add_event(ViewerEvent::CursorVisibilityChanged(true));
    batch.add_event(ViewerEvent::CursorShapeChanged(None));

    assert!(matches!(
        batch.presentation,
        Some(Presentation::Frame(ref frame)) if frame.width == 2
    ));
    let places: Vec<u32> = batch.patches.iter().map(|patch| patch.x).collect();
    assert_eq!(places, vec![3, 4]);
    assert_eq!(batch.status.as_deref(), Some("second"));
    assert_eq!(batch.mouse_mode, Some(MouseMode::Absolute));
    assert_eq!(batch.cursor_visible, Some(true));
    assert!(matches!(batch.cursor_shape, Some(None)));
    assert!(!batch.disconnected);
    batch.closed();
    assert!(batch.disconnected);
}

#[test]
fn troubles_with_buffers_become_the_status() {
    let mut status = Some("old".to_owned());
    assert_eq!(
        scanout_shown(&mut status, ScanoutOutcome::Shown),
        BufferSlot::Replace
    );
    assert_eq!(status.as_deref(), Some("old"));
    assert_eq!(
        scanout_shown(&mut status, ScanoutOutcome::NotPrepared(Failure::of("x"))),
        BufferSlot::Keep
    );
    assert_eq!(
        status.as_deref(),
        Some("Could not prepare the DMABUF scanout for display: x")
    );
    assert_eq!(
        scanout_shown(&mut status, ScanoutOutcome::NotImported(Failure::of("y"))),
        BufferSlot::Clear
    );
    assert_eq!(
        status.as_deref(),
        Some("Could not import the DMABUF scanout: y")
    );
    buffer_refreshed(&mut status, Ok(false));
    assert_eq!(
        status.as_deref(),
        Some("Could not import the DMABUF scanout: y")
    );
    let mut none = None;
    buffer_refreshed(&mut none, Ok(true));
    assert_eq!(none, None);
    buffer_refreshed(&mut none, Ok(false));
    assert_eq!(
        none.as_deref(),
        Some("Received a DMABUF update before the initial scanout was available.")
    );
    buffer_refreshed(&mut none, Err(Failure::of("z")));
    assert_eq!(
        none.as_deref(),
        Some("Could not refresh the DMABUF scanout: z")
    );
    assert_eq!(
        status_line(none, true, "demo").as_deref(),
        Some("Disconnected from `demo`.")
    );
    assert_eq!(status_line(None, false, "demo"), None);
}

#[test]
fn a_frame_of_another_size_forgets_the_pointer() {
    let mut state = UiState {
        frame_size: Some((640, 480)),
        last_pointer_guest_position: Some((1, 2)),
    };
    assert_eq!(state.present_frame("demo", 640, 480), "demo - 640x480");
    assert_eq!(state.last_pointer_guest_position, Some((1, 2)));
    assert_eq!(state.present_frame("demo", 800, 480), "demo - 800x480");
    assert_eq!(state.last_pointer_guest_position, None);
    assert_eq!(state.frame_size, Some((800, 480)));
}

#[test]
fn keys_act_on_the_window_first() {
    let hotkeys = ViewerHotkeys::default();
    let both = CONTROL_MASK | ALT_MASK;
    assert_eq!(
        window_action(&hotkeys, false, KEY_F11, KEY_F11, 0),
        WindowAction::Perform(Action::ToggleFullscreen)
    );
    assert_eq!(
        window_action(&hotkeys, true, KEY_ESCAPE, KEY_ESCAPE, 0),
        WindowAction::LeaveFullscreen
    );
    assert_eq!(
        window_action(&hotkeys, false, KEY_ESCAPE, KEY_ESCAPE, 0),
        WindowAction::Pass
    );
    assert_eq!(
        window_action(&hotkeys, false, 0x52, KEY_R, both),
        WindowAction::Perform(Action::RotateDmabufView)
    );
    assert_eq!(
        window_action(&hotkeys, false, 0x66, 0x66, both),
        WindowAction::Perform(Action::ToggleDmabufFlip)
    );
    assert_eq!(
        window_action(&hotkeys, false, 0x30, 0x30, both),
        WindowAction::Perform(Action::ResetDmabufTransform)
    );
    assert_eq!(
        window_action(&hotkeys, false, 0x66, 0x66, 0),
        WindowAction::Pass
    );
}

#[test]
fn windows_have_a_sensible_size_and_look() {
    assert_eq!(suggested_window_size(0, 0), (640, 480));
    assert_eq!(suggested_window_size(800, 600), (800, 600));
    assert_eq!(suggested_window_size(u32::MAX, u32::MAX), (1280, 960));

    let full = chrome_plan(true, true);
    assert!(!full.titlebar && full.hotspot && full.floating_controls);
    assert_eq!(full.button_icon, "view-restore-symbolic");
    let plain = chrome_plan(false, true);
    assert!(plain.titlebar && !plain.hotspot && !plain.floating_controls);
    assert_eq!(plain.button_icon, "view-fullscreen-symbolic");
    assert!(!chrome_plan(false, false).titlebar);
}

#[test]
fn the_chooser_shows_machines_and_hands_out_the_chosen_one() {
    let vms = vec![VmSummary {
        source_label: "session bus".to_owned(),
        source_address: None,
        owner: ":1.1".to_owned(),
        name: "demo".to_owned(),
        uuid: "u".to_owned(),
        console_ids: vec![0, 1],
        interfaces: Vec::new(),
    }];
    let card = vm_card(&vms[0]);
    assert_eq!(card.name, "demo");
    assert_eq!(card.uuid, "UUID: u");
    assert_eq!(card.source, "Source: session bus");
    assert_eq!(card.details, "Owner: :1.1   |   Consoles: 2");
    assert_eq!(chosen_vm(&vms, Some(0)).expect("row 0 is there").uuid, "u");
    assert!(chosen_vm(&vms, Some(1)).is_none());
    assert!(chosen_vm(&vms, Some(-1)).is_none());
    assert!(chosen_vm(&vms, None).is_none());
}
