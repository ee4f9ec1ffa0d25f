use qd2::qemu::types::ConnectTarget;
use qd2::viewer::reconnect::wait_over;
use qd2::viewer::reconnect::ReconnectPlan;
use qd2::viewer::reconnect::WaitSignal;

fn connect_target() -> ConnectTarget {
    ConnectTarget {
        source_address: Some("unix:path=/run/libvirt/qemu/dbus/7-demo-dbus.sock".to_owned()),
        owner: ":1.42".to_owned(),
        vm_name: "demo".to_owned(),
        vm_uuid: "11111111-2222-3333-4444-555555555555".to_owned(),
        console_id: 0,
        width: 1280,
        height: 720,
        console_interfaces: vec!["org.qemu.Display1.Mouse".to_owned()],
        warnings: Vec::new(),
    }
}

#[test]
fn listener_reconnect_wait_message_mentions_new_socket_hint_for_explicit_addresses() {
    let plan = ReconnectPlan::new(
        &connect_target(),
        Some("unix:path=/run/libvirt/qemu/dbus/7-demo-dbus.sock".to_owned()),
    );

    let message = plan.waiting_message();
    assert!(message.contains("demo"));
    assert!(message.contains("--address"));
    assert!(message.contains("new private D-Bus socket"));
}

#[test]
fn listener_reconnect_wait_message_mentions_vm_return_for_auto_discovery() {
    let plan = ReconnectPlan::new(&connect_target(), None);

    let message = plan.waiting_message();
    assert!(message.contains("demo"));
    assert!(message.contains("Waiting for the VM to come back"));
    assert!(!message.contains("--address"));
}

#[test]
fn reconnect_reconnect_wait_message_mentions_new_socket_hint_for_explicit_addresses() {
    let address = "unix:path=/run/libvirt/qemu/dbus/7-demo-dbus.sock".to_owned();
    let message = ReconnectPlan::new(&connect_target(), Some(address)).waiting_message();

    assert!(message.contains("demo"));
    assert!(message.contains("--address"));
    assert!(message.contains("new private D-Bus socket"));
}

#[test]
fn reconnect_reconnect_wait_message_mentions_vm_return_for_auto_discovery() {
    let message = ReconnectPlan::new(&connect_target(), None).waiting_message();

    assert!(message.contains("demo"));
    assert!(message.contains("Waiting for the VM to come back"));
    assert!(!message.contains("--address"));
}

#[test]
fn a_wait_goes_on_until_it_is_over() {
    assert_eq!(wait_over(WaitSignal::Shutdown), Some(true));
    assert_eq!(wait_over(WaitSignal::InputClosed), Some(true));
    assert_eq!(wait_over(WaitSignal::Input), None);
    assert_eq!(wait_over(WaitSignal::TimedOut), Some(false));
}
