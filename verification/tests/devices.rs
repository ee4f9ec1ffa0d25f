use qd2::viewer::hotkeys::canonical_key_name;
use qd2::viewer::hotkeys::key_names_in;
use qd2::viewer::hotkeys::normalize_action_name;
use qd2::viewer::hotkeys::parse_binding;
use qd2::viewer::hotkeys::parse_modifier;
use qd2::viewer::hotkeys::Hotkey;
use qd2::viewer::hotkeys::KnownKey;
use qd2::viewer::hotkeys::ViewerHotkeys;
use qd2::viewer::hotkeys::ALT_MASK;
use qd2::viewer::hotkeys::CONTROL_MASK;
use qd2::viewer::hotkeys::KEY_F11;
use qd2::viewer::hotkeys::SHIFT_MASK;
use qd2::viewer::input::InputEvent;
use qd2::viewer::input::MouseButton;
use qd2::viewer::input::MouseMode;
use qd2::viewer::keyboard::key_pressed;
use qd2::viewer::keyboard::key_released;
use qd2::viewer::keyboard::send_guest_shortcut;
use qd2::viewer::keyboard::GuestShortcut;
use qd2::viewer::keyboard::PressedKeyState;
use qd2::viewer::keymap::gdk_keycode_to_qnum;
use qd2::viewer::keymap::linux_keycode_to_qnum;
use qd2::viewer::mouse::button_pressed;
use qd2::viewer::mouse::button_released;
use qd2::viewer::mouse::emit_scroll_buttons;
use qd2::viewer::mouse::gtk_button_to_qemu;
use qd2::viewer::mouse::pointer_moved;
use qd2::viewer::mouse::UiState;

const ALT_L: u32 = 0xffe9;

fn over(width: u32, height: u32) -> UiState {
    UiState {
        frame_size: Some((width, height)),
        last_pointer_guest_position: None,
    }
}

fn keys() -> Vec<KnownKey> {
    let known = |name: &str, key: u32| KnownKey {
        asked: name.to_owned(),
        key,
        name: name.to_owned(),
    };
    vec![
        known("Return", 0xff0d),
        known("F11", KEY_F11),
        known("q", 0x71),
    ]
}

#[test]
fn key_numbers_are_distinct_bytes() {
    let mut seen = Vec::new();
    for code in 0..=0x300u32 {
        if let Some(qnum) = linux_keycode_to_qnum(code) {
            assert!(qnum < 256);
            assert!(!seen.contains(&qnum), "{qnum}");
            seen.push(qnum);
            assert_eq!(gdk_keycode_to_qnum(code + 8), Some(qnum));
        }
    }
    assert_eq!(linux_keycode_to_qnum(0), None);
    assert_eq!(linux_keycode_to_qnum(84), None);
    assert_eq!(linux_keycode_to_qnum(240), None);
    assert_eq!(gdk_keycode_to_qnum(7), None);
    assert_eq!(gdk_keycode_to_qnum(8), None);
    assert_eq!(gdk_keycode_to_qnum(9), Some(1));
}

#[test]
fn an_absolute_mouse_hears_every_place() {
    let mut state = over(640, 480);
    assert_eq!(
        pointer_moved(&mut state, MouseMode::Absolute, true, Some((3, 4))),
        Some(InputEvent::MouseAbs { x: 3, y: 4 })
    );
    assert_eq!(
        pointer_moved(&mut state, MouseMode::Absolute, true, Some((3, 4))),
        Some(InputEvent::MouseAbs { x: 3, y: 4 })
    );
    assert_eq!(
        pointer_moved(&mut state, MouseMode::Absolute, false, Some((5, 6))),
        None
    );
    assert_eq!(
        pointer_moved(&mut state, MouseMode::Disabled, true, Some((5, 6))),
        None
    );
}

#[test]
fn a_relative_mouse_hears_steps() {
    let mut state = over(640, 480);
    let mode = MouseMode::Relative;
    assert_eq!(pointer_moved(&mut state, mode, true, Some((10, 10))), None);
    assert_eq!(
        pointer_moved(&mut state, mode, true, Some((12, 7))),
        Some(InputEvent::MouseRel { dx: 2, dy: -3 })
    );
    assert_eq!(pointer_moved(&mut state, mode, true, Some((12, 7))), None);
    assert_eq!(pointer_moved(&mut state, mode, true, None), None);
    assert_eq!(pointer_moved(&mut state, mode, true, Some((600, 400))), None);
    state.pointer_left();
    assert_eq!(pointer_moved(&mut state, mode, true, Some((0, 0))), None);
}

#[test]
fn buttons_come_after_the_place() {
    let mut state = over(640, 480);
    assert_eq!(
        button_pressed(&mut state, MouseMode::Absolute, Some((1, 2)), 1),
        vec![
            InputEvent::MouseAbs { x: 1, y: 2 },
            InputEvent::MousePress(MouseButton::Left)
        ]
    );
    assert_eq!(
        button_released(&mut state, MouseMode::Absolute, true, None, 3),
        vec![InputEvent::MouseRelease(MouseButton::Right)]
    );
    assert!(button_released(&mut state, MouseMode::Absolute, false, None, 3).is_empty());
    assert_eq!(
        button_pressed(&mut state, MouseMode::Relative, Some((1, 2)), 7),
        vec![]
    );
    let buttons: Vec<Option<MouseButton>> = (0..11).map(gtk_button_to_qemu).collect();
    assert_eq!(
        buttons,
        vec![
            None,
            Some(MouseButton::Left),
            Some(MouseButton::Middle),
            Some(MouseButton::Right),
            None,
            None,
            None,
            None,
            Some(MouseButton::Side),
            Some(MouseButton::Extra),
            None
        ]
    );
}

#[test]
fn wheels_tick() {
    assert_eq!(
        emit_scroll_buttons(2, true),
        vec![
            InputEvent::MouseWheel(MouseButton::WheelDown),
            InputEvent::MouseWheel(MouseButton::WheelDown)
        ]
    );
    assert_eq!(
        emit_scroll_buttons(1, false),
        vec![InputEvent::MouseWheel(MouseButton::WheelUp)]
    );
    assert!(emit_scroll_buttons(0, true).is_empty());
}

#[test]
fn keys_reach_the_guest_once() {
    let mut state = PressedKeyState::default();
    let hotkeys = ViewerHotkeys::default();
    let release = hotkeys.release_cursor();
    let a = 30 + 8;

    let free = key_pressed(&mut state, false, release, 0x61, 0x61, a, 0);
    assert!(free.events.is_empty() && !free.stop && !free.release_grab);
    let first = key_pressed(&mut state, true, release, 0x61, 0x61, a, 0);
    assert_eq!(first.events, vec![InputEvent::KeyPress(30)]);
    assert!(first.stop);
    let repeat = key_pressed(&mut state, true, release, 0x61, 0x61, a, 0);
    assert!(repeat.events.is_empty() && repeat.stop);
    assert_eq!(key_released(&mut state, a), Some(InputEvent::KeyRelease(30)));
    assert_eq!(key_released(&mut state, a), None);
    let unknown = key_pressed(&mut state, true, release, 0x61, 0x61, 3, 0);
    assert!(unknown.events.is_empty() && !unknown.stop);
    assert_eq!(key_released(&mut state, 3), None);
}

#[test]
fn the_release_hotkey_lets_go_of_everything() {
    let mut state = PressedKeyState::default();
    let hotkeys = ViewerHotkeys::default();
    let release = hotkeys.release_cursor();
    let control = 29 + 8;
    let alt = 56 + 8;

    key_pressed(&mut state, true, release, 0xffe3, 0xffe3, control, 0);
    let outcome = key_pressed(&mut state, true, release, ALT_L, ALT_L, alt, CONTROL_MASK);
    assert_eq!(outcome.events, vec![InputEvent::KeyRelease(29)]);
    assert!(outcome.stop && outcome.release_grab);
    assert_eq!(key_released(&mut state, control), None);
    assert_eq!(key_released(&mut state, alt), None);
}

#[test]
fn shortcuts_leave_every_key_up() {
    assert_eq!(GuestShortcut::all().len(), 11);
    for shortcut in GuestShortcut::all() {
        assert!(shortcut.label().starts_with("Ctrl + Alt + "));
        let events = send_guest_shortcut(shortcut);
        let mut down = Vec::new();
        for event in events {
            match event {
                InputEvent::KeyPress(key) => down.push(key),
                InputEvent::KeyRelease(key) => assert_eq!(down.pop(), Some(key)),
                other => panic!("no key: {other:?}"),
            }
        }
        assert!(down.is_empty());
    }
    assert_eq!(GuestShortcut::CtrlAltF9.qnums(), vec![29, 56, 67]);
    assert_eq!(GuestShortcut::CtrlAltBackspace.label(), "Ctrl + Alt + BackSpace");
}

#[test]
fn bindings_are_read() {
    let binding = parse_binding("ctrl + enter", &keys()).expect("the binding is valid");
    assert_eq!(binding.accelerator(), Some("<Control>Return"));
    assert!(binding.matches(0xff0d, 0xff0d, CONTROL_MASK));
    assert!(!binding.matches(0xff0d, 0xff0d, CONTROL_MASK | SHIFT_MASK));
    assert!(binding.matches(0xff0d, 0xff0d, CONTROL_MASK | 0x2));

    let off = parse_binding("none", &keys()).expect("a binding can be switched off");
    assert_eq!(off.accelerator(), None);
    assert!(!off.matches(KEY_F11, KEY_F11, 0));

    assert!(parse_binding("", &keys()).is_err());
    assert!(parse_binding("ctrl+", &keys()).is_err());
    assert!(parse_binding("f11+q", &keys()).is_err());
    assert!(parse_binding("ctrl+nonsense", &keys()).is_err());

    assert_eq!(parse_modifier("Control"), Some(CONTROL_MASK));
    assert_eq!(parse_modifier("alt"), Some(ALT_MASK));
    assert_eq!(parse_modifier("enter"), None);
    assert_eq!(canonical_key_name("enter"), "Return");
    assert_eq!(canonical_key_name("f5"), "F5");
    assert_eq!(normalize_action_name(" Toggle_Fullscreen "), "toggle-fullscreen");
}

#[test]
fn only_the_named_keys_are_looked_up() {
    let text = Some("toggle-fullscreen=ctrl+enter, rotate-dmabuf-view=q");
    assert_eq!(key_names_in(text), vec!["ctrl", "Return", "q"]);
    assert!(key_names_in(None).is_empty());
    let hotkeys = ViewerHotkeys::parse(text, &keys()).expect("the overrides are valid");
    assert!(hotkeys.rotate_dmabuf_view().matches(0x51, 0x71, 0));
    assert!(hotkeys.toggle_dmabuf_flip().matches(0x66, 0x66, CONTROL_MASK | ALT_MASK));
}

#[test]
fn empty_overrides_give_the_defaults() {
    for text in [None, Some(""), Some("   ")] {
        let hotkeys = ViewerHotkeys::parse(text, &Vec::new()).expect("there is nothing to refuse");
        assert!(hotkeys.toggle_fullscreen().matches(KEY_F11, KEY_F11, 0));
        assert_eq!(hotkeys.shortcuts_for_dialog().len(), 5);
        assert_eq!(
            hotkeys.release_cursor().accelerator(),
            ViewerHotkeys::default().release_cursor().accelerator()
        );
    }
    assert_eq!(
        ViewerHotkeys::parse(Some("a=f11,,"), &keys())
            .expect_err("the action is unknown")
            .to_string()
            .lines()
            .count(),
        1
    );
    assert_eq!(
        ViewerHotkeys::parse(Some("toggle-fullscreen=f11,,"), &keys())
            .expect_err("an assignment is empty")
            .to_string(),
        "`--hotkeys` contains an empty assignment"
    );
    assert_eq!(
        ViewerHotkeys::parse(Some("toggle-fullscreen"), &keys())
            .expect_err("there is no accelerator")
            .to_string(),
        "invalid hotkey override `toggle-fullscreen`; expected `action=accelerator`"
    );
}

#[test]
fn bindings_collide_with_themselves_only() {
    let key = Hotkey::key(KEY_F11, "F11", CONTROL_MASK);
    let same = Hotkey::key(KEY_F11, "F11", CONTROL_MASK);
    let other = Hotkey::key(KEY_F11, "F11", ALT_MASK);
    let chord = Hotkey::modifiers(CONTROL_MASK);
    assert!(key.collides(&same));
    assert!(!key.collides(&other));
    assert!(!key.collides(&chord));
    assert!(chord.collides(&Hotkey::modifiers(CONTROL_MASK)));
}
