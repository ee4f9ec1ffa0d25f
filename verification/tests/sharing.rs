use qd2::error::Failure;
use qd2::viewer::clipboard::bridge::ClipboardBridgeState;
use qd2::viewer::clipboard::bridge::GuestFetch;
use qd2::viewer::clipboard::bridge::HostAction;
use qd2::viewer::clipboard::content::is_supported_text_mime;
use qd2::viewer::clipboard::content::preview_text;
use qd2::viewer::clipboard::content::ClipboardContent;
use qd2::viewer::clipboard::content::ClipboardSelection;
use qd2::viewer::clipboard::content::RichKind;
use qd2::viewer::clipboard::content::IMAGE_PNG;
use qd2::viewer::clipboard::content::TEXT_HTML;
use qd2::viewer::clipboard::content::TEXT_PLAIN;
use qd2::viewer::clipboard::content::TEXT_PLAIN_UTF8;
use qd2::viewer::clipboard::content::TEXT_URI_LIST;
use qd2::viewer::clipboard::host::clipboard_debug_enabled;
use qd2::viewer::clipboard::host::is_paste_shortcut;
use qd2::viewer::clipboard::host::plan_host_read;
use qd2::viewer::clipboard::host::ClipboardReadPart;
use qd2::viewer::clipboard::host::ClipboardUiState;
use qd2::viewer::clipboard::host::HostClipboardRead;
use qd2::viewer::events::ViewerEvent;
use qd2::viewer::events::ViewerInput;
use qd2::viewer::hotkeys::CONTROL_MASK;
use qd2::viewer::hotkeys::SHIFT_MASK;

const MAIN: ClipboardSelection = ClipboardSelection::Clipboard;

fn text(words: &str) -> ClipboardContent {
    let mut content = ClipboardContent::empty();
    content.merge_text(words.to_owned());
    content
}

fn mimes(names: &[&str]) -> Vec<String> {
    names.iter().map(|name| name.to_string()).collect()
}

#[test]
fn text_that_is_no_utf8_is_repaired() {
    let mut content = ClipboardContent::empty();
    let bytes = vec![b'a', 0xff, b'b'];
    content.merge_mime_bytes(TEXT_PLAIN, bytes.clone());
    assert_eq!(
        content.plain_text(),
        Some(String::from_utf8_lossy(&bytes).as_ref())
    );
    content.merge_mime_bytes(TEXT_PLAIN_UTF8, "grüße".as_bytes().to_vec());
    assert_eq!(content.plain_text(), Some("grüße"));
    content.merge_mime_bytes("application/json", vec![1]);
    assert_eq!(content.part(RichKind::Html), None);
}

#[test]
fn contents_are_described() {
    assert_eq!(ClipboardContent::empty().describe(), "empty");
    let mut content = text("a\"b");
    content.merge_mime_bytes(TEXT_HTML, vec![1, 2]);
    content.merge_mime_bytes(TEXT_URI_LIST, vec![1]);
    content.merge_mime_bytes(IMAGE_PNG, vec![1, 2, 3]);
    assert_eq!(
        content.describe(),
        "text len=3 preview=\"a\\\"b\", html bytes=2, uri-list bytes=1, png bytes=3"
    );
    let long: String = "é".repeat(200);
    assert!(text(&long).describe().starts_with("text len=400 preview=\"é"));
    assert!(preview_text(&long).ends_with("..."));
    assert_eq!(preview_text("short"), "short");
}

#[test]
fn what_is_served_reads_back() {
    let mut content = text("hello");
    content.merge_mime_bytes(IMAGE_PNG, vec![1, 2, 3]);
    for name in content.advertised_mimes() {
        let (mime, data) = content
            .reply_for_requested_mimes(&vec![name.clone()])
            .expect("whatever is offered is served");
        assert_eq!(mime, name);
        let mut other = ClipboardContent::empty();
        other.merge_mime_bytes(&mime, data);
        if is_supported_text_mime(&mime) {
            assert_eq!(other.plain_text(), Some("hello"));
        } else {
            assert_eq!(other.part(RichKind::Png), Some(&vec![1, 2, 3]));
        }
    }
    assert!(content
        .reply_for_requested_mimes(&mimes(&[TEXT_HTML, "x"]))
        .is_none());
    assert!(content.same_as(&content.duplicate()));
    assert!(!content.same_as(&text("hello")));
}

#[test]
fn the_host_offers_and_answers() {
    let mut state = ClipboardBridgeState::new();
    assert_eq!(
        state.request(MAIN, &mimes(&[TEXT_PLAIN])).is_err(),
        true
    );
    match state.update_host_content(MAIN, Some(text("one"))) {
        HostAction::Grab { serial, mimes } => {
            assert_eq!(serial, 1);
            assert_eq!(mimes.len(), 5);
        }
        other => panic!("no claim: {other:?}"),
    }
    assert!(matches!(
        state.update_host_content(MAIN, Some(text("one"))),
        HostAction::Nothing
    ));
    assert_eq!(
        state
            .request(MAIN, &mimes(&[TEXT_HTML, TEXT_PLAIN]))
            .expect("the text is there"),
        (TEXT_PLAIN.to_owned(), b"one".to_vec())
    );
    assert!(matches!(
        state.update_host_content(MAIN, None),
        HostAction::Release
    ));
    assert!(matches!(
        state.update_host_content(MAIN, None),
        HostAction::Nothing
    ));
    assert!(matches!(
        state.update_host_content(ClipboardSelection::Secondary, Some(text("x"))),
        HostAction::Nothing
    ));
    assert_eq!(
        state
            .request(ClipboardSelection::Secondary, &mimes(&[TEXT_PLAIN]))
            .expect_err("there is no such clipboard"),
        "clipboard selection Secondary is not supported yet"
    );
}

#[test]
fn the_guest_claims_the_clipboard() {
    let mut state = ClipboardBridgeState::new();
    assert!(state.grab(MAIN, 1, &mimes(&["application/json"])).is_none());
    let plan = state
        .grab(MAIN, 4, &mimes(&[TEXT_PLAIN, IMAGE_PNG]))
        .expect("the claim is accepted");
    assert_eq!(plan.len(), 2);
    assert!(state.grab(MAIN, 3, &mimes(&[TEXT_PLAIN])).is_none());
    assert!(state.request(MAIN, &mimes(&[TEXT_PLAIN])).is_err());

    let mut fetch = GuestFetch::new();
    fetch.record(Ok((TEXT_PLAIN.to_owned(), b"guest".to_vec())));
    fetch.record(Err(Failure::of("no picture")));
    match state.finish_grab(MAIN, 4, fetch) {
        Some(ViewerEvent::ClipboardGuestChanged(selection, content)) => {
            assert_eq!(selection, MAIN);
            assert_eq!(content.plain_text(), Some("guest"));
        }
        other => panic!("no content: {other:?}"),
    }

    let mut late = GuestFetch::new();
    late.record(Ok((TEXT_PLAIN.to_owned(), b"late".to_vec())));
    assert!(state.finish_grab(MAIN, 3, late).is_none());

    let mut failed = GuestFetch::new();
    failed.record(Err(Failure::of("first")));
    failed.record(Err(Failure::of("second")));
    assert!(matches!(
        state.finish_grab(MAIN, 4, failed),
        Some(ViewerEvent::Status(text)) if text == "Clipboard fetch failed: first"
    ));
    assert!(state.finish_grab(MAIN, 4, GuestFetch::new()).is_none());
}

#[test]
fn a_focused_viewer_lets_the_guest_claim() {
    let mut state = ClipboardBridgeState::new();
    state.update_host_content(MAIN, Some(text("host")));
    assert!(state.grab(MAIN, 0, &mimes(&[TEXT_PLAIN])).is_none());
    assert!(state.set_viewer_focused(true));
    assert!(!state.set_viewer_focused(true));
    assert!(state.grab(MAIN, 0, &mimes(&[TEXT_PLAIN])).is_some());
    state.release(MAIN);
    state.reset();
    assert!(state.request(MAIN, &mimes(&[TEXT_PLAIN])).is_err());
}

#[test]
fn readings_are_put_together() {
    let plan = plan_host_read(&mimes(&[TEXT_PLAIN, IMAGE_PNG, "x"]), false);
    assert!(plan.text && plan.png && !plan.html && !plan.uri_list);
    assert_eq!(plan.parts(), 2);
    assert!(plan_host_read(&Vec::new(), true).text);

    let mut read = HostClipboardRead::new(MAIN, 3, plan);
    assert!(!read.complete_part(ClipboardReadPart::Text("a".to_owned())));
    assert!(read.complete_part(ClipboardReadPart::Bytes {
        mime: IMAGE_PNG.to_owned(),
        data: vec![1],
    }));
    assert_eq!(read.selection(), MAIN);
    assert_eq!(read.generation(), 3);
    assert_eq!(read.content().plain_text(), Some("a"));
    assert_eq!(read.content().part(RichKind::Png), Some(&vec![1]));
}

#[test]
fn what_the_guest_copied_does_not_come_back() {
    let mut state = ClipboardUiState::new();
    let guest = text("guest");
    state
        .apply_guest_clipboard(MAIN, &guest, Ok(()))
        .expect("the clipboard was claimed");
    let generation = state.next_read_generation(MAIN).expect("it is supported");
    assert!(state
        .finish_host_snapshot(MAIN, generation, text("guest"))
        .is_none());
    let generation = state.next_read_generation(MAIN).expect("it is supported");
    assert!(state
        .finish_host_snapshot(MAIN, generation - 1, text("old"))
        .is_none());
    assert!(matches!(
        state.finish_host_snapshot(MAIN, generation, text("user")),
        Some(ViewerInput::ClipboardHostChanged(ClipboardSelection::Clipboard, Some(content)))
            if content.plain_text() == Some("user")
    ));
    assert!(state
        .finish_host_snapshot(MAIN, generation, text("user"))
        .is_none());
    assert_eq!(state.next_read_generation(ClipboardSelection::Secondary), None);
}

#[test]
fn refused_contents_are_kept_for_another_attempt() {
    let mut state = ClipboardUiState::new();
    assert!(state.pending_guest_content(MAIN).is_none());
    let failure = state
        .apply_guest_clipboard(MAIN, &text("guest"), Err(Failure::of("no input")))
        .expect_err("the clipboard was refused");
    assert_eq!(
        failure.in_full(),
        "failed to claim the host clipboard; Wayland may require a recent local input event: no input"
    );
    let pending = state
        .pending_guest_content(MAIN)
        .expect("the content is kept");
    assert_eq!(pending.plain_text(), Some("guest"));
    state
        .apply_guest_clipboard(MAIN, &pending, Ok(()))
        .expect("the clipboard was claimed");
    assert!(state.pending_guest_content(MAIN).is_none());
}

#[test]
fn paste_shortcuts_are_known() {
    assert!(is_paste_shortcut(0x76, CONTROL_MASK));
    assert!(is_paste_shortcut(0x56, CONTROL_MASK));
    assert!(!is_paste_shortcut(0x76, CONTROL_MASK | SHIFT_MASK));
    assert!(is_paste_shortcut(0xff63, SHIFT_MASK));
    assert!(!is_paste_shortcut(0xff63, SHIFT_MASK | CONTROL_MASK));
    assert!(!is_paste_shortcut(0x76, 0));
    for (value, enabled) in [
        (None, false),
        (Some(""), false),
        (Some(" 0 "), false),
        (Some("FALSE"), false),
        (Some("1"), true),
        (Some("yes"), true),
    ] {
        assert_eq!(clipboard_debug_enabled(value), enabled);
    }
}
