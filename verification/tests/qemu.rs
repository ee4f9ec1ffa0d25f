use qd2::qemu::discovery::deduplicate_vms;
use qd2::qemu::discovery::libvirt_socket_addresses_from_paths;
use qd2::qemu::discovery::unix_socket_path_from_address;
use qd2::qemu::discovery::SocketPath;
use qd2::qemu::selection::select_vm;
use qd2::qemu::types::ChardevSummary;
use qd2::qemu::types::ClipboardAgentStatus;
use qd2::qemu::types::ConsoleSummary;
use qd2::qemu::types::Discovery;
use qd2::qemu::types::InspectionReport;
use qd2::qemu::types::VmSummary;
use qd2::qemu::warnings::clipboard_agent_status;
use qd2::qemu::warnings::suggested_inspection_warnings;

fn sample_vm(name: &str, uuid: &str, owner: &str) -> VmSummary {
    VmSummary {
        source_label: "session bus".to_owned(),
        source_address: None,
        owner: owner.to_owned(),
        name: name.to_owned(),
        uuid: uuid.to_owned(),
        console_ids: vec![0],
        interfaces: vec!["org.qemu.Display1.Console".to_owned()],
    }
}

fn sample_discovery(vms: Vec<VmSummary>) -> Discovery {
    Discovery {
        bus_label: "session bus and detected libvirt D-Bus sockets".to_owned(),
        vms,
        warnings: Vec::new(),
    }
}

fn sample_report(
    has_audio: bool,
    has_clipboard: bool,
    chardevs: Vec<ChardevSummary>,
) -> InspectionReport {
    InspectionReport {
        bus_label: "session bus and detected libvirt D-Bus sockets".to_owned(),
        vm: sample_vm("demo", "uuid-1", ":1.101"),
        has_audio,
        has_clipboard,
        consoles: vec![ConsoleSummary {
            id: 0,
            label: "Demo".to_owned(),
            head: 0,
            kind: "display".to_owned(),
            width: 1280,
            height: 720,
            interfaces: vec!["org.qemu.Display1.Mouse".to_owned()],
        }],
        chardevs,
        warnings: Vec::new(),
    }
}

fn vdagent(frontend_open: bool) -> ChardevSummary {
    ChardevSummary {
        name: "vdagent".to_owned(),
        owner: "com.redhat.spice.0".to_owned(),
        frontend_open,
        echo: false,
    }
}

fn entry(path: &str) -> SocketPath {
    SocketPath {
        path: path.to_owned(),
        resolved: None,
    }
}

fn check_single_vm() {
    let vm = sample_vm("demo", "uuid-1", ":1.101");
    let discovery = sample_discovery(vec![vm.clone()]);
    let selected = select_vm(&discovery, None).unwrap();

    assert_eq!(selected.name, "demo");
    assert_eq!(selected.uuid, "uuid-1");
}

#[test]
fn qemu_single_vm_is_selected_by_default() {
    check_single_vm();
}

#[test]
fn selection_single_vm_is_selected_by_default() {
    check_single_vm();
}

fn check_selectors() {
    let vm = sample_vm("demo", "uuid-1", ":1.101");
    let discovery = sample_discovery(vec![vm.clone()]);

    assert_eq!(select_vm(&discovery, Some("demo")).unwrap().owner, vm.owner);
    assert_eq!(
        select_vm(&discovery, Some("uuid-1")).unwrap().owner,
        vm.owner
    );
    assert_eq!(
        select_vm(&discovery, Some(":1.101")).unwrap().owner,
        vm.owner
    );
}

#[test]
fn qemu_selector_matches_name_uuid_and_owner() {
    check_selectors();
}

#[test]
fn selection_selector_matches_name_uuid_and_owner() {
    check_selectors();
}

fn check_duplicate_name() {
    let discovery = sample_discovery(vec![
        sample_vm("demo", "uuid-1", ":1.101"),
        sample_vm("demo", "uuid-2", ":1.102"),
    ]);

    let error = select_vm(&discovery, Some("demo")).unwrap_err().to_string();

    assert!(error.contains("matched multiple VMs"));
    assert!(error.contains("uuid-1"));
    assert!(error.contains("uuid-2"));
}

#[test]
fn qemu_duplicate_name_requires_more_specific_selector() {
    check_duplicate_name();
}

#[test]
fn selection_duplicate_name_requires_more_specific_selector() {
    check_duplicate_name();
}

fn check_sock_entries() {
    let addresses = libvirt_socket_addresses_from_paths(&vec![
        entry("/run/libvirt/qemu/dbus/12-oscp-dbus.sock"),
        entry("/run/libvirt/qemu/dbus/ignore-me"),
        entry("/run/libvirt/qemu/dbus/notes.txt"),
    ]);

    assert_eq!(
        addresses,
        vec!["unix:path=/run/libvirt/qemu/dbus/12-oscp-dbus.sock"]
    );
}

#[test]
fn qemu_libvirt_candidates_only_keep_sock_entries() {
    check_sock_entries();
}

#[test]
fn discovery_libvirt_candidates_only_keep_sock_entries() {
    check_sock_entries();
}

fn check_socket_path() {
    assert_eq!(
        unix_socket_path_from_address("unix:path=/run/libvirt/qemu/dbus/test.sock").as_deref(),
        Some("/run/libvirt/qemu/dbus/test.sock")
    );
    assert_eq!(unix_socket_path_from_address("tcp:host=localhost"), None);
}

#[test]
fn qemu_unix_socket_path_is_extracted_from_address() {
    check_socket_path();
}

#[test]
fn discovery_unix_socket_path_is_extracted_from_address() {
    check_socket_path();
}

fn check_collapse() {
    let mut vms = vec![
        VmSummary {
            source_label: "session bus".to_owned(),
            source_address: None,
            owner: ":1.101".to_owned(),
            name: "demo".to_owned(),
            uuid: "uuid-1".to_owned(),
            console_ids: vec![0],
            interfaces: vec!["org.qemu.Display1.Console".to_owned()],
        },
        VmSummary {
            source_label: "D-Bus at `unix:path=/run/libvirt/qemu/dbus/demo.sock`".to_owned(),
            source_address: Some("unix:path=/run/libvirt/qemu/dbus/demo.sock".to_owned()),
            owner: ":1.102".to_owned(),
            name: "demo".to_owned(),
            uuid: "uuid-1".to_owned(),
            console_ids: vec![0],
            interfaces: vec!["org.qemu.Display1.Console".to_owned()],
        },
    ];

    deduplicate_vms(&mut vms);

    assert_eq!(vms.len(), 1);
    assert_eq!(vms[0].source_label, "session bus");
}

#[test]
fn qemu_duplicate_vm_entries_are_collapsed_by_uuid_fingerprint() {
    check_collapse();
}

#[test]
fn discovery_duplicate_vm_entries_are_collapsed_by_uuid_fingerprint() {
    check_collapse();
}

#[test]
fn qemu_connected_vdagent_channel_is_detected() {
    let status = clipboard_agent_status(&vec![vdagent(true)]);

    assert_eq!(status, ClipboardAgentStatus::Connected);
}

#[test]
fn warnings_connected_vdagent_channel_is_detected() {
    let status = clipboard_agent_status(&vec![vdagent(true)]);

    assert_eq!(status, ClipboardAgentStatus::Connected);
}

#[test]
fn qemu_disconnected_vdagent_channel_is_detected() {
    let status = clipboard_agent_status(&vec![vdagent(false)]);

    assert_eq!(status, ClipboardAgentStatus::GuestDisconnected);
}

#[test]
fn warnings_disconnected_vdagent_channel_is_detected() {
    let status = clipboard_agent_status(&vec![vdagent(false)]);

    assert_eq!(status, ClipboardAgentStatus::GuestDisconnected);
}

#[test]
fn qemu_missing_vdagent_export_is_treated_as_unknown_not_missing() {
    let status = clipboard_agent_status(&Vec::new());

    assert_eq!(status, ClipboardAgentStatus::Unknown);
}

#[test]
fn warnings_missing_vdagent_export_is_treated_as_unknown_not_missing() {
    let status = clipboard_agent_status(&Vec::new());

    assert_eq!(status, ClipboardAgentStatus::Unknown);
}

fn check_audio_and_agent_warnings() {
    let report = sample_report(false, true, vec![vdagent(false)]);

    let warnings = suggested_inspection_warnings(&report);
    assert!(warnings
        .iter()
        .any(|warning| warning.contains("audio object")));
    assert!(warnings
        .iter()
        .any(|warning| warning.contains("guest side is not connected")));
}

#[test]
fn qemu_inspection_warnings_cover_missing_audio_and_disconnected_clipboard_agent() {
    check_audio_and_agent_warnings();
}

#[test]
fn warnings_inspection_warnings_cover_missing_audio_and_disconnected_clipboard_agent() {
    check_audio_and_agent_warnings();
}

#[test]
fn qemu_inspection_warnings_do_not_claim_missing_clipboard_agent_when_unverifiable() {
    let report = sample_report(true, true, Vec::new());

    let warnings = suggested_inspection_warnings(&report);
    assert!(warnings.is_empty());
}

#[test]
fn warnings_inspection_warnings_do_not_claim_missing_clipboard_agent_when_unverifiable() {
    let report = sample_report(true, true, Vec::new());

    let warnings = suggested_inspection_warnings(&report);
    assert!(warnings.is_empty());
}

#[test]
fn qemu_inspection_warnings_cover_missing_clipboard_object() {
    let report = sample_report(true, false, Vec::new());

    let warnings = suggested_inspection_warnings(&report);
    assert_eq!(warnings.len(), 1);
    assert!(warnings[0].contains("clipboard object"));
}

#[test]
fn warnings_inspection_warnings_cover_missing_clipboard_object() {
    let report = sample_report(true, false, Vec::new());

    let warnings = suggested_inspection_warnings(&report);
    assert_eq!(warnings.len(), 1);
    assert!(warnings[0].contains("clipboard object"));
}
