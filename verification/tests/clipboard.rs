use qd2::viewer::clipboard::bridge::preferred_text_request_mimes;
use qd2::viewer::clipboard::bridge::remote_fetch_plan;
use qd2::viewer::clipboard::bridge::should_accept_remote_grab;
use qd2::viewer::clipboard::content::canonical_rich_mime;
use qd2::viewer::clipboard::content::ClipboardContent;
use qd2::viewer::clipboard::content::ClipboardSelection;
use qd2::viewer::clipboard::content::IMAGE_PNG;
use qd2::viewer::clipboard::content::STRING;
use qd2::viewer::clipboard::content::TEXT;
use qd2::viewer::clipboard::content::TEXT_HTML;
use qd2::viewer::clipboard::content::TEXT_PLAIN;
use qd2::viewer::clipboard::content::TEXT_PLAIN_UTF8;
use qd2::viewer::clipboard::content::TEXT_URI_LIST;
use qd2::viewer::clipboard::content::UTF8_STRING;

#[test]
fn advertised_mimes_include_text_aliases_and_rich_content() {
    let mut content = ClipboardContent::empty();
    content.merge_text("hello".to_owned());
    content.merge_mime_bytes(TEXT_HTML, b"<b>hello</b>".to_vec());
    content.merge_mime_bytes(IMAGE_PNG, vec![1, 2, 3]);

    assert_eq!(
        content.advertised_mimes(),
        vec![
            TEXT_PLAIN_UTF8,
            TEXT_PLAIN,
            UTF8_STRING,
            TEXT,
            STRING,
            TEXT_HTML,
            IMAGE_PNG
        ]
    );
}

#[test]
fn request_reply_follows_requester_order() {
    let mut content = ClipboardContent::empty();
    content.merge_text("hello".to_owned());
    content.merge_mime_bytes(TEXT_HTML, b"<b>hello</b>".to_vec());

    let requested = vec![TEXT_HTML.to_owned(), TEXT_PLAIN.to_owned()];
    let (mime, data) = content
        .reply_for_requested_mimes(&requested)
        .expect("reply should be available");

    assert_eq!(mime, TEXT_HTML);
    assert_eq!(data, b"<b>hello</b>");
}

#[test]
fn remote_fetch_plan_requests_text_once_and_rich_formats_individually() {
    let offered = vec![
        TEXT_PLAIN.to_owned(),
        TEXT_HTML.to_owned(),
        IMAGE_PNG.to_owned(),
    ];

    let plan = remote_fetch_plan(&offered);
    assert_eq!(plan.len(), 3);
    assert_eq!(plan[0].requested_mimes, vec![TEXT_PLAIN]);
    assert_eq!(plan[1].requested_mimes, vec![TEXT_HTML]);
    assert_eq!(plan[2].requested_mimes, vec![IMAGE_PNG]);
}

#[test]
fn preferred_text_request_mimes_keep_qd2_preference_order() {
    let offered = vec![
        STRING.to_owned(),
        TEXT_PLAIN.to_owned(),
        UTF8_STRING.to_owned(),
    ];

    assert_eq!(
        preferred_text_request_mimes(&offered),
        vec![TEXT_PLAIN, UTF8_STRING, STRING]
    );
}

#[test]
fn canonical_rich_mimes_match_exact_supported_values() {
    assert_eq!(canonical_rich_mime(TEXT_HTML), Some(TEXT_HTML));
    assert_eq!(canonical_rich_mime(TEXT_URI_LIST), Some(TEXT_URI_LIST));
    assert_eq!(canonical_rich_mime(IMAGE_PNG), Some(IMAGE_PNG));
    assert_eq!(canonical_rich_mime("application/json"), None);
}

#[test]
fn primary_selection_is_treated_as_supported() {
    let plan = remote_fetch_plan(&vec![TEXT_PLAIN_UTF8.to_owned()]);
    assert_eq!(ClipboardSelection::Primary as u32, 1);
    assert_eq!(plan[0].requested_mimes, vec![TEXT_PLAIN_UTF8]);
}

#[test]
fn focused_viewer_allows_guest_grab_to_override_local_owner() {
    assert!(should_accept_remote_grab(5, true, true, 0));
    assert!(!should_accept_remote_grab(5, true, false, 0));
    assert!(should_accept_remote_grab(5, false, false, 6));
}
