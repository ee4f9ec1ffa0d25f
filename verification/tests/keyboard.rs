use qd2::viewer::hotkeys::KnownKey;
use qd2::viewer::hotkeys::ViewerHotkeys;
use qd2::viewer::hotkeys::ALT_MASK;
use qd2::viewer::hotkeys::CONTROL_MASK;
use qd2::viewer::input::InputEvent;
use qd2::viewer::keyboard::send_guest_shortcut;
use qd2::viewer::keyboard::GuestShortcut;
use qd2::viewer::keyboard::PressedKeyState;
use qd2::viewer::keymap::linux_keycode_to_qnum;

const CONTROL_L: u32 = 0xffe3;
const ALT_L: u32 = 0xffe9;
const SHIFT_L: u32 = 0xffe1;
const RETURN: u32 = 0xff0d;
const F11: u32 = 0xffc8;
const ESCAPE: u32 = 0xff1b;

fn known(name: &str, key: u32) -> KnownKey {
    KnownKey {
        asked: name.to_owned(),
        key,
        name: name.to_owned(),
    }
}

fn known_keys() -> Vec<KnownKey> {
    vec![
        known("Return", RETURN),
        known("F11", F11),
        known("Escape", ESCAPE),
    ]
}

#[test]
fn default_release_cursor_binding_matches_modifier_chord() {
    let hotkeys = ViewerHotkeys::default();

    assert!(hotkeys.release_cursor().matches(ALT_L, ALT_L, CONTROL_MASK));
    assert!(hotkeys
        .release_cursor()
        .matches(CONTROL_L, CONTROL_L, ALT_MASK));
    assert!(!hotkeys.release_cursor().matches(CONTROL_L, CONTROL_L, 0));
}

#[test]
fn hotkey_overrides_replace_defaults() {
    let hotkeys = ViewerHotkeys::parse(
        Some("toggle-fullscreen=ctrl+enter,release-cursor=ctrl+shift"),
        &known_keys(),
    )
    .expect("the overrides should be accepted");

    assert!(hotkeys
        .toggle_fullscreen()
        .matches(RETURN, RETURN, CONTROL_MASK));
    assert!(hotkeys
        .release_cursor()
        .matches(SHIFT_L, SHIFT_L, CONTROL_MASK));
    assert!(!hotkeys.toggle_fullscreen().matches(F11, F11, 0));
}

#[test]
fn fullscreen_shortcuts_dialog_only_lists_toggle_action() {
    let hotkeys = ViewerHotkeys::parse(Some("toggle-fullscreen=ctrl+enter"), &known_keys())
        .expect("the override should be accepted");
    let shortcuts = hotkeys.shortcuts_for_dialog();

    assert!(shortcuts
        .iter()
        .any(|(title, _)| *title == "Toggle fullscreen"));
    assert!(!shortcuts
        .iter()
        .any(|(title, _)| *title == "Leave fullscreen"));
}

#[test]
fn duplicate_bindings_are_rejected() {
    let error = ViewerHotkeys::parse(
        Some("toggle-fullscreen=f11,release-cursor=f11"),
        &known_keys(),
    )
    .expect_err("conflicting bindings should be rejected");

    assert!(error.to_string().contains("hotkey conflict"));
}

#[test]
fn duplicate_actions_are_rejected() {
    let error = ViewerHotkeys::parse(
        Some("toggle-fullscreen=f11,toggle_fullscreen=escape"),
        &known_keys(),
    )
    .expect_err("duplicate actions should be rejected");

    assert!(error.to_string().contains("specified more than once"));
}

#[test]
fn unknown_actions_are_rejected() {
    let error = ViewerHotkeys::parse(Some("something-else=ctrl+enter"), &known_keys())
        .expect_err("unknown action");

    assert!(error.to_string().contains("unknown hotkey action"));
}

#[test]
fn keyboard_extended_linux_keycodes_are_translated_to_qnum() {
    assert_eq!(linux_keycode_to_qnum(97), Some(157));
    assert_eq!(linux_keycode_to_qnum(100), Some(184));
    assert_eq!(linux_keycode_to_qnum(125), Some(219));
}

#[test]
fn default_release_hotkey_matches_ctrl_alt() {
    let hotkeys = ViewerHotkeys::default();

    assert!(hotkeys.release_cursor().matches(ALT_L, ALT_L, CONTROL_MASK));
    assert!(hotkeys
        .release_cursor()
        .matches(CONTROL_L, CONTROL_L, ALT_MASK));
    assert!(!hotkeys.release_cursor().matches(CONTROL_L, CONTROL_L, 0));
}

#[test]
fn force_release_sends_each_pressed_key_once_and_suppresses_follow_up_releases() {
    let mut state = PressedKeyState::default();

    assert!(state.press(29));
    assert!(state.press(56));
    let events = state.release_all();

    let mut released = Vec::new();
    for event in events {
        if let InputEvent::KeyRelease(qnum) = event {
            released.push(qnum);
        }
    }
    released.sort_unstable();

    assert_eq!(released, vec![29, 56]);
    assert!(state.take_suppressed_release(29));
    assert!(state.take_suppressed_release(56));
    assert!(!state.take_suppressed_release(29));
}

#[test]
fn guest_shortcut_sends_press_and_reverse_release_sequence() {
    let mut events = send_guest_shortcut(GuestShortcut::CtrlAltDelete).into_iter();

    assert_eq!(events.next(), Some(InputEvent::KeyPress(29)));
    assert_eq!(events.next(), Some(InputEvent::KeyPress(56)));
    assert_eq!(events.next(), Some(InputEvent::KeyPress(211)));
    assert_eq!(events.next(), Some(InputEvent::KeyRelease(211)));
    assert_eq!(events.next(), Some(InputEvent::KeyRelease(56)));
    assert_eq!(events.next(), Some(InputEvent::KeyRelease(29)));
}
