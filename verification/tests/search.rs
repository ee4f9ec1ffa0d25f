use qd2::error::Failure;
use qd2::qemu::discovery::explain_address_connect_error;
use qd2::qemu::discovery::explicit_discovery;
use qd2::qemu::discovery::deduplicate_vms;
use qd2::qemu::discovery::directory_warning;
use qd2::qemu::discovery::discovery_targets;
use qd2::qemu::discovery::discovery_trace;
use qd2::qemu::discovery::is_dbus_socket_path;
use qd2::qemu::discovery::libvirt_dbus_dirs;
use qd2::qemu::discovery::libvirt_socket_addresses_from_paths;
use qd2::qemu::discovery::session_bus_failure;
use qd2::qemu::discovery::socket_path_to_address;
use qd2::qemu::discovery::unix_socket_path_from_address;
use qd2::qemu::discovery::vm_summary;
use qd2::qemu::discovery::AutoDiscovery;
use qd2::qemu::discovery::CauseKind;
use qd2::qemu::discovery::DiscoveryTarget;
use qd2::qemu::discovery::SocketPath;
use qd2::qemu::discovery::VmFacts;
use qd2::qemu::inspection::connect_target;
use qd2::qemu::inspection::console_failure;
use qd2::qemu::inspection::console_object_path;
use qd2::qemu::inspection::console_summary;
use qd2::qemu::inspection::display_failure;
use qd2::qemu::inspection::inspection_report;
use qd2::qemu::inspection::inspection_trace;
use qd2::qemu::inspection::interfaces_for_console;
use qd2::qemu::inspection::ConsoleFacts;
use qd2::qemu::inspection::ManagedObject;
use qd2::qemu::selection::connect_choice;
use qd2::qemu::selection::select_console;
use qd2::qemu::selection::select_vm;
use qd2::qemu::selection::ConnectChoice;
use qd2::qemu::types::ConsoleSummary;
use qd2::qemu::types::Discovery;
use qd2::qemu::types::VmSummary;

fn vm(name: &str, uuid: &str, owner: &str) -> VmSummary {
    VmSummary {
        source_label: "session bus".to_owned(),
        source_address: None,
        owner: owner.to_owned(),
        name: name.to_owned(),
        uuid: uuid.to_owned(),
        console_ids: vec![0],
        interfaces: Vec::new(),
    }
}

fn console(id: u32, label: &str) -> ConsoleSummary {
    console_summary(
        id,
        ConsoleFacts {
            label: label.to_owned(),
            head: 0,
            kind: "Graphic".to_owned(),
            width: 800,
            height: 600,
        },
        vec!["org.b".to_owned(), "org.a".to_owned()],
    )
}

fn names(vms: &[VmSummary]) -> Vec<String> {
    vms.iter().map(|vm| vm.name.clone()).collect()
}

#[test]
fn socket_paths_have_the_extension_that_std_sees() {
    for path in [
        "",
        "/",
        "a.sock",
        ".sock",
        "..sock",
        "a.sock/",
        "a.sock/.",
        "a.sock/..",
        "a.b/c",
        "/run/x.sock/./",
        "x.sock.old",
        "x.SOCK",
        "/run//y.sock",
        "sock",
        ".",
        "..",
        "a./.sock",
    ] {
        let expected =
            std::path::Path::new(path).extension().and_then(|e| e.to_str()) == Some("sock");
        assert_eq!(is_dbus_socket_path(path), expected, "{path}");
    }
}

#[test]
fn socket_addresses_read_back() {
    for path in ["", "/run/x.sock", "unix:path=/odd"] {
        let address = socket_path_to_address(path);
        assert_eq!(address, format!("unix:path={path}"));
        assert_eq!(unix_socket_path_from_address(&address).as_deref(), Some(path));
    }
}

#[test]
fn linked_sockets_are_listed_once_and_in_order() {
    let entries = vec![
        SocketPath {
            path: "/var/run/2.sock".to_owned(),
            resolved: Some("/run/2.sock".to_owned()),
        },
        SocketPath {
            path: "/run/2.sock".to_owned(),
            resolved: Some("/run/2.sock".to_owned()),
        },
        SocketPath {
            path: "/run/1.sock".to_owned(),
            resolved: None,
        },
    ];
    assert_eq!(
        libvirt_socket_addresses_from_paths(&entries),
        vec!["unix:path=/run/1.sock", "unix:path=/run/2.sock"]
    );
    assert_eq!(
        libvirt_dbus_dirs(),
        vec!["/run/libvirt/qemu/dbus", "/var/run/libvirt/qemu/dbus"]
    );
}

#[test]
fn the_session_bus_is_searched_first() {
    let targets = discovery_targets(&vec!["unix:path=/run/1.sock".to_owned()]);
    assert_eq!(targets.len(), 2);
    assert_eq!(targets[0].label, "session bus");
    assert_eq!(targets[0].address, None);
    assert_eq!(targets[1].label, "D-Bus at `unix:path=/run/1.sock`");
    assert_eq!(targets[1].address.as_deref(), Some("unix:path=/run/1.sock"));
    assert_eq!(
        discovery_trace(&targets[0]),
        "discovering QEMU VMs on session bus"
    );
    assert_eq!(directory_warning("/run/x", "denied"), "/run/x: denied");
}

#[test]
fn refused_connections_are_explained() {
    let plain = explain_address_connect_error(
        "unix:path=/run/x.sock",
        &vec![CauseKind::Other],
        Failure::of("gone"),
    );
    assert_eq!(
        plain.in_full(),
        "failed to connect to D-Bus address `unix:path=/run/x.sock`: gone"
    );

    let socket = explain_address_connect_error(
        "unix:path=/run/x.sock",
        &vec![CauseKind::Other, CauseKind::PermissionDenied],
        Failure::of("denied"),
    );
    assert_eq!(
        socket.to_string(),
        "failed to connect to D-Bus address `unix:path=/run/x.sock`\nPermission denied opening `/run/x.sock`. Check search permission on the parent directories and connect permission on the socket."
    );

    let other = explain_address_connect_error(
        "tcp:host=h",
        &vec![CauseKind::PermissionDenied],
        Failure::of("denied"),
    );
    assert_eq!(
        other.to_string(),
        "failed to connect to D-Bus address `tcp:host=h`\nPermission denied while opening the configured D-Bus address."
    );

    assert_eq!(
        session_bus_failure(Failure::of("no bus")).in_full(),
        "failed to connect to the session D-Bus: no bus"
    );
}

#[test]
fn what_a_machine_says_is_put_in_order() {
    let target = DiscoveryTarget::explicit("unix:path=/run/x.sock");
    let found = vm_summary(
        &target,
        VmFacts {
            owner: ":1.5".to_owned(),
            name: "demo".to_owned(),
            uuid: "u".to_owned(),
            console_ids: vec![2, 0, 1],
            interfaces: vec!["org.b".to_owned(), "org.a".to_owned()],
        },
    );
    assert_eq!(found.console_ids, vec![0, 1, 2]);
    assert_eq!(found.interfaces, vec!["org.a", "org.b"]);
    assert_eq!(found.source_label, "D-Bus at `unix:path=/run/x.sock`");
    assert_eq!(found.source_address.as_deref(), Some("unix:path=/run/x.sock"));
    assert_eq!(found.owner, ":1.5");
}

#[test]
fn a_search_collects_sorts_and_warns() {
    let targets = discovery_targets(&vec!["unix:path=/run/1.sock".to_owned()]);
    let mut search = AutoDiscovery::new(vec!["/run/x: denied".to_owned()]);
    search.record(
        &targets[0],
        Ok(vec![vm("b", "2", ":1.2"), vm("a", "1", ":1.1")]),
    );
    search.record(
        &targets[1],
        Err(Failure::of("refused").context("cannot connect".to_owned())),
    );
    search.record(&targets[1], Ok(vec![vm("a", "1", ":1.9")]));
    let discovery = search.finish();

    assert_eq!(
        discovery.bus_label,
        "session bus and detected libvirt D-Bus sockets"
    );
    assert_eq!(names(&discovery.vms), vec!["a", "b"]);
    assert_eq!(discovery.vms[0].owner, ":1.1");
    assert_eq!(
        discovery.warnings,
        vec![
            "/run/x: denied",
            "D-Bus at `unix:path=/run/1.sock`: cannot connect"
        ]
    );

    let explicit = explicit_discovery("addr", vec![vm("z", "2", ":1.2"), vm("y", "1", ":1.1")]);
    assert_eq!(explicit.bus_label, "D-Bus at `addr`");
    assert_eq!(names(&explicit.vms), vec!["y", "z"]);
}

#[test]
fn machines_without_uuid_are_all_kept() {
    let mut vms = vec![
        vm("demo", "", ":1.1"),
        vm("demo", "", ":1.2"),
        vm("demo", "u", ":1.3"),
        vm("other", "u", ":1.4"),
        vm("demo", "u", ":1.5"),
    ];
    deduplicate_vms(&mut vms);
    let owners: Vec<&str> = vms.iter().map(|vm| vm.owner.as_str()).collect();
    assert_eq!(owners, vec![":1.1", ":1.2", ":1.3", ":1.4"]);
    deduplicate_vms(&mut vms);
    assert_eq!(vms.len(), 4);
}

#[test]
fn console_paths_hold_the_number() {
    assert_eq!(console_object_path(0), "/org/qemu/Display1/Console_0");
    assert_eq!(
        console_object_path(u32::MAX),
        "/org/qemu/Display1/Console_4294967295"
    );

    let objects = vec![
        ManagedObject {
            path: "/org/qemu/Display1/Console_1".to_owned(),
            interfaces: vec!["org.qemu.Display1.Mouse".to_owned()],
        },
        ManagedObject {
            path: "/org/qemu/Display1/Console_10".to_owned(),
            interfaces: vec!["org.qemu.Display1.Keyboard".to_owned()],
        },
    ];
    assert_eq!(
        interfaces_for_console(&objects, 10).expect("the path is valid"),
        vec!["org.qemu.Display1.Keyboard"]
    );
    assert!(interfaces_for_console(&objects, 0)
        .expect("the path is valid")
        .is_empty());
}

#[test]
fn consoles_are_picked_by_number() {
    let report = inspection_report(
        vm("demo", "u", ":1.1"),
        true,
        true,
        vec![console(1, "VGA"), console(0, "Serial")],
        Vec::new(),
        Vec::new(),
    );
    assert_eq!(report.consoles[0].interfaces, vec!["org.a", "org.b"]);

    let picked = select_console(&report, Some(1)).expect("console 1 is there");
    assert_eq!(picked.label, "VGA");
    let first = select_console(&report, None).expect("there is a first console");
    assert_eq!(first.label, "VGA");
    let failure = select_console(&report, Some(7)).expect_err("console 7 is not there");
    assert_eq!(
        failure.to_string(),
        "console 7 was not found on VM `demo`.\nAvailable consoles:\n- 1 | VGA | 800x600\n- 0 | Serial | 800x600"
    );

    let bare = inspection_report(
        vm("demo", "u", ":1.1"),
        true,
        true,
        Vec::new(),
        Vec::new(),
        Vec::new(),
    );
    assert_eq!(
        select_console(&bare, None)
            .expect_err("there is no console")
            .to_string(),
        "the VM `demo` on session bus does not report any display consoles"
    );

    let target = connect_target(report, Some(0)).expect("console 0 is there");
    assert_eq!(target.console_id, 0);
    assert_eq!(target.vm_name, "demo");
    assert_eq!(target.vm_uuid, "u");
    assert_eq!((target.width, target.height), (800, 600));
}

#[test]
fn machines_are_asked_for_where_there_are_several() {
    let one = vec![vm("a", "1", ":1.1")];
    let two = vec![vm("a", "1", ":1.1"), vm("b", "2", ":1.2")];
    assert!(matches!(
        connect_choice(Some("a"), &Vec::new()),
        ConnectChoice::Resolve(Some(name)) if name == "a"
    ));
    assert!(matches!(
        connect_choice(None, &Vec::new()),
        ConnectChoice::Resolve(None)
    ));
    assert!(matches!(
        connect_choice(None, &one),
        ConnectChoice::Resolve(Some(uuid)) if uuid == "1"
    ));
    assert!(matches!(connect_choice(None, &two), ConnectChoice::Ask));
}

#[test]
fn unknown_machines_are_refused() {
    let none = Discovery {
        bus_label: "session bus".to_owned(),
        vms: Vec::new(),
        warnings: vec!["/run/x: denied".to_owned()],
    };
    let failure = select_vm(&none, None).expect_err("there is no machine");
    assert!(failure.to_string().contains("session bus"));
    assert!(failure.to_string().contains("/run/x: denied"));

    let some = Discovery {
        bus_label: "session bus".to_owned(),
        vms: vec![vm("a", "1", ":1.1"), vm("b", "2", ":1.2")],
        warnings: Vec::new(),
    };
    assert!(select_vm(&some, Some("c")).is_err());
    assert!(select_vm(&some, None).is_err());
    assert_eq!(select_vm(&some, Some("b")).expect("b is there").uuid, "2");
}

#[test]
fn failures_on_the_bus_name_what_was_asked() {
    let machine = vm("demo", "u", ":1.1");
    assert_eq!(
        display_failure(&machine, Failure::of("gone")).in_full(),
        "failed to connect to QEMU display owner :1.1 on session bus: gone"
    );
    assert_eq!(
        console_failure(3, ":1.1", Failure::of("gone")).in_full(),
        "failed to open console 3 on :1.1: gone"
    );
    assert_eq!(
        inspection_trace(&machine),
        "inspecting VM `demo` on session bus"
    );
}
