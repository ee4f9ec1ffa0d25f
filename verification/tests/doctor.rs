use qd2::cli::BusArgs;
use qd2::cli::ConnectArgs;
use qd2::cli::DoctorArgs;
use qd2::cli::InspectArgs;
use qd2::diagnostics::audio_backend_check;
use qd2::diagnostics::clipboard_agent_check;
use qd2::diagnostics::console_check;
use qd2::diagnostics::discovery_check;
use qd2::diagnostics::doctor;
use qd2::diagnostics::doctor_inspects;
use qd2::diagnostics::graphics_session_check;
use qd2::diagnostics::set_verbose;
use qd2::diagnostics::sudo_desktop_session_check;
use qd2::diagnostics::verbose;
use qd2::diagnostics::verbose_enabled;
use qd2::diagnostics::AudioTools;
use qd2::diagnostics::DoctorCheck;
use qd2::diagnostics::DoctorReport;
use qd2::diagnostics::DoctorStatus;
use qd2::diagnostics::SessionEnvironment;
use qd2::diagnostics::Verbosity;
use qd2::error::Failure;
use qd2::qemu::inspection::inspection_report;
use qd2::qemu::types::ChardevSummary;
use qd2::qemu::types::ClipboardAgentStatus;
use qd2::qemu::types::ConsoleSummary;
use qd2::qemu::types::Discovery;
use qd2::qemu::types::InspectionReport;
use qd2::qemu::types::VmSummary;
use qd2::report;

fn environment() -> SessionEnvironment {
    SessionEnvironment {
        wayland_display: None,
        display: None,
        session_type: None,
        runtime_dir: None,
        sudo_user: None,
        sudo_uid: None,
        dbus_session_bus: None,
    }
}

fn no_tools() -> AudioTools {
    AudioTools {
        pw_play: None,
        aplay: None,
    }
}

fn vm(name: &str, uuid: &str) -> VmSummary {
    VmSummary {
        source_label: "session bus".to_owned(),
        source_address: Some("unix:path=/run/x.sock".to_owned()),
        owner: ":1.7".to_owned(),
        name: name.to_owned(),
        uuid: uuid.to_owned(),
        console_ids: vec![0, 1],
        interfaces: vec!["org.a".to_owned(), "org.b".to_owned()],
    }
}

fn discovery(vms: Vec<VmSummary>, warnings: Vec<String>) -> Discovery {
    Discovery {
        bus_label: "session bus".to_owned(),
        vms,
        warnings,
    }
}

fn inspected() -> InspectionReport {
    inspection_report(
        vm("demo", "u"),
        true,
        true,
        vec![ConsoleSummary {
            id: 0,
            label: "VGA".to_owned(),
            head: 1,
            kind: "Graphic".to_owned(),
            width: 640,
            height: 480,
            interfaces: Vec::new(),
        }],
        vec![ChardevSummary {
            name: "vdagent".to_owned(),
            owner: "com.redhat.spice.0".to_owned(),
            frontend_open: true,
            echo: false,
        }],
        vec!["scan".to_owned()],
    )
}

#[test]
fn diagnostics_are_printed_only_when_asked_for() {
    let mut verbosity = Verbosity::default();
    assert!(!verbose_enabled(&verbosity));
    assert_eq!(verbose(&verbosity, "x"), None);
    set_verbose(&mut verbosity, true);
    assert!(verbose_enabled(&verbosity));
    assert_eq!(verbose(&verbosity, "x").as_deref(), Some("[qd2] x"));
    set_verbose(&mut verbosity, false);
    assert!(!verbose_enabled(&verbosity));
}

#[test]
fn arguments_hand_out_their_address() {
    let bus = || BusArgs {
        address: Some("addr".to_owned()),
    };
    let inspect = InspectArgs {
        bus: bus(),
        vm: None,
    };
    assert_eq!(inspect.address(), Some("addr"));
    let doctor = DoctorArgs {
        bus: BusArgs { address: None },
        vm: None,
    };
    assert_eq!(doctor.address(), None);
    let connect = ConnectArgs {
        bus: bus(),
        vm: None,
        console: None,
        hotkeys: None,
    };
    assert_eq!(connect.address(), Some("addr"));
}

#[test]
fn graphics_sessions_are_told_apart() {
    let mut verbosity = Verbosity::default();
    let mut session = environment();
    let check = graphics_session_check(&session, &verbosity);
    assert_eq!(check.name, "Graphics session");
    assert_eq!(check.status, DoctorStatus::Fail);

    session.display = Some(":0".to_owned());
    let check = graphics_session_check(&session, &verbosity);
    assert_eq!(check.status, DoctorStatus::Pass);
    assert_eq!(check.detail, "X11 display `:0` is set.");

    session.wayland_display = Some("wayland-0".to_owned());
    session.session_type = Some("wayland".to_owned());
    set_verbose(&mut verbosity, true);
    let check = graphics_session_check(&session, &verbosity);
    assert_eq!(
        check.detail,
        "Wayland display `wayland-0` is set.\nXDG_SESSION_TYPE=wayland\nXDG_RUNTIME_DIR=<unset>"
    );
}

#[test]
fn sessions_behind_sudo_are_told_apart() {
    let mut session = environment();
    assert_eq!(
        sudo_desktop_session_check(&session).detail,
        "QD2 is running as the current desktop user."
    );
    session.sudo_user = Some("alice".to_owned());
    session.sudo_uid = Some("1000".to_owned());
    let check = sudo_desktop_session_check(&session);
    assert_eq!(check.status, DoctorStatus::Warn);
    assert!(check.detail.contains("sudo --preserve-env=XDG_RUNTIME_DIR"));
    session.runtime_dir = Some("/run/user/1000".to_owned());
    session.dbus_session_bus = Some("unix:path=/run/user/1000/bus".to_owned());
    let check = sudo_desktop_session_check(&session);
    assert_eq!(check.status, DoctorStatus::Pass);
    assert!(check.detail.contains("`alice` desktop session"));
}

#[test]
fn audio_programs_are_told_apart() {
    let mut tools = no_tools();
    assert_eq!(audio_backend_check(&tools).status, DoctorStatus::Fail);
    tools.aplay = Some("/bin/aplay".to_owned());
    let check = audio_backend_check(&tools);
    assert_eq!(check.status, DoctorStatus::Warn);
    assert_eq!(
        check.detail,
        "`pw-play` was not found on PATH, so QD2 will fall back to `aplay` at `/bin/aplay`."
    );
    tools.pw_play = Some("/bin/pw-play".to_owned());
    assert_eq!(
        audio_backend_check(&tools).detail,
        "Found `pw-play` at `/bin/pw-play` and `aplay` at `/bin/aplay`."
    );
    tools.aplay = None;
    assert_eq!(
        audio_backend_check(&tools).detail,
        "Found `pw-play` at `/bin/pw-play`."
    );
}

#[test]
fn searches_are_summed_up() {
    let check = discovery_check(&discovery(Vec::new(), vec!["a".to_owned(), "b".to_owned()]));
    assert_eq!(check.status, DoctorStatus::Warn);
    assert_eq!(
        check.detail,
        "No QEMU D-Bus VMs were found on session bus.\nDiscovery warnings:\n  - a\n  - b"
    );
    let check = discovery_check(&discovery(vec![vm("a", "1")], Vec::new()));
    assert_eq!(check.status, DoctorStatus::Pass);
    assert_eq!(check.detail, "Found 1 VM(s) on session bus.");

    assert_eq!(console_check(0, "demo").status, DoctorStatus::Fail);
    assert_eq!(
        console_check(2, "demo").detail,
        "The VM `demo` reports 2 console(s)."
    );
    assert_eq!(
        clipboard_agent_check(ClipboardAgentStatus::GuestDisconnected).status,
        DoctorStatus::Warn
    );
}

#[test]
fn the_doctor_stops_where_it_cannot_go_on() {
    let verbosity = Verbosity::default();

    let failed = Err(Failure::of("refused").context("no bus".to_owned()));
    assert!(!doctor_inspects(&failed, None));
    let report = doctor(&environment(), &no_tools(), &verbosity, &failed, None, None);
    assert_eq!(report.host_checks.len(), 4);
    assert_eq!(
        report.host_checks[3].detail,
        "Could not inspect the configured D-Bus scope.\nno bus: refused"
    );
    assert!(report.vm_checks.is_empty());

    let empty = Ok(discovery(Vec::new(), Vec::new()));
    assert!(!doctor_inspects(&empty, Some("demo")));
    let report = doctor(&environment(), &no_tools(), &verbosity, &empty, None, None);
    assert_eq!(report.vm_checks[0].name, "VM-specific checks");

    let two = Ok(discovery(vec![vm("a", "1"), vm("b", "2")], Vec::new()));
    assert!(!doctor_inspects(&two, None));
    assert!(doctor_inspects(&two, Some("a")));
    let report = doctor(&environment(), &no_tools(), &verbosity, &two, None, None);
    assert_eq!(report.vm_checks[0].name, "VM selection");

    let report = doctor(
        &environment(),
        &no_tools(),
        &verbosity,
        &two,
        Some("c"),
        Some(Err(Failure::of("no such VM"))),
    );
    assert_eq!(
        report.vm_checks[0].detail,
        "Could not inspect the selected VM.\nno such VM"
    );
    assert!(report.inspected_vm.is_none());
}

#[test]
fn the_doctor_checks_a_machine() {
    let one = Ok(discovery(vec![vm("demo", "u")], Vec::new()));
    assert!(doctor_inspects(&one, None));
    let report = doctor(
        &environment(),
        &no_tools(),
        &Verbosity::default(),
        &one,
        None,
        Some(Ok(inspected())),
    );
    let names: Vec<&str> = report.vm_checks.iter().map(|check| check.name).collect();
    assert_eq!(
        names,
        vec![
            "Display consoles",
            "QEMU audio object",
            "QEMU clipboard object",
            "Clipboard guest agent"
        ]
    );
    let printed = report::doctor(&report);
    assert_eq!(printed[0], "Host checks:");
    assert!(printed.contains(&"VM checks for demo:".to_owned()));
    assert!(printed.contains(
        &"  [OK] Display consoles: The VM `demo` reports 1 console(s).".to_owned()
    ));
}

#[test]
fn checks_are_printed_line_by_line() {
    let check = |status: DoctorStatus, detail: &str| DoctorCheck {
        name: "Check",
        status,
        detail: detail.to_owned(),
    };
    let printed = report::doctor(&DoctorReport {
        host_checks: vec![
            check(DoctorStatus::Warn, "one\ntwo"),
            check(DoctorStatus::Fail, ""),
        ],
        vm_checks: vec![check(DoctorStatus::Pass, "fine")],
        inspected_vm: None,
    });
    assert_eq!(
        printed,
        vec![
            "Host checks:",
            "  [WARN] Check: one",
            "      two",
            "  [FAIL] Check",
            "",
            "VM checks:",
            "  [OK] Check: fine",
        ]
    );
}

#[test]
fn machines_are_listed() {
    let none = report::vm_list(&discovery(Vec::new(), Vec::new()));
    assert_eq!(
        none.join("\n"),
        "No QEMU D-Bus VMs found on the session bus.\nHint: start QEMU with `-display dbus` or pass `--address <DBUS_ADDRESS>`."
    );
    let mut bare = vm("b", "2");
    bare.interfaces = Vec::new();
    let list = report::vm_list(&discovery(vec![vm("a", "1"), bare], Vec::new()));
    assert_eq!(
        list,
        vec![
            "a",
            "  UUID: 1",
            "  D-Bus owner: :1.7",
            "  Source: session bus",
            "  Consoles: 2",
            "  Interfaces: org.a, org.b",
            "",
            "b",
            "  UUID: 2",
            "  D-Bus owner: :1.7",
            "  Source: session bus",
            "  Consoles: 2",
            "  Interfaces: none reported",
        ]
    );
    assert_eq!(
        report::warning_lines(&vec!["x".to_owned()]),
        vec!["Warning: x"]
    );
    assert_eq!(report::yes_no(true), "yes");
    assert_eq!(report::yes_no(false), "no");
}

#[test]
fn inspections_are_printed() {
    let inspection = inspected();
    assert_eq!(inspection.warnings, vec!["scan"]);
    assert_eq!(
        report::inspection(&inspection),
        vec![
            "demo",
            "  UUID: u",
            "  D-Bus owner: :1.7",
            "  Bus: session bus",
            "  Address: unix:path=/run/x.sock",
            "  VM interfaces: org.a, org.b",
            "  Audio object: yes",
            "  Clipboard object: yes",
            "  Chardevs: 1",
            "",
            "Consoles:",
            "  - Console 0: VGA",
            "    Type: Graphic | Head: 1 | Size: 640x480",
            "    Interfaces: none reported",
            "",
            "Chardevs:",
            "  - vdagent",
            "    Owner: com.redhat.spice.0 | Frontend open: yes | Echo: no",
        ]
    );
}
