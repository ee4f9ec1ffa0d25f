use qd2::viewer::cursor::argb32_words_to_rgba;
use qd2::viewer::cursor::Cursor;
use qd2::viewer::cursor::GuestCursor;
use qd2::viewer::pixel::ByteOrder;

#[test]
fn empty_guest_cursor_clears_the_shape() {
    let cursor = GuestCursor::from_qemu(
        Cursor {
            width: 0,
            height: 16,
            hot_x: 0,
            hot_y: 0,
            data: Vec::new(),
        },
        ByteOrder::Little,
    )
    .expect("empty guest cursor should be accepted");

    assert!(cursor.is_none());
}

#[test]
fn guest_cursor_requires_enough_argb_bytes() {
    let error = GuestCursor::from_qemu(
        Cursor {
            width: 2,
            height: 2,
            hot_x: 0,
            hot_y: 0,
            data: vec![0; 15],
        },
        ByteOrder::Little,
    )
    .expect_err("short guest cursor payload should be rejected");

    assert!(error.to_string().contains("too short"));
}

#[test]
fn argb32_black_stays_opaque_black() {
    let rgba = argb32_words_to_rgba(&[0x00, 0x00, 0x00, 0xff], ByteOrder::Little);

    assert_eq!(rgba, vec![0x00, 0x00, 0x00, 0xff]);
}

#[test]
fn argb32_color_channels_are_swizzled_to_rgba() {
    let words = [0x12, 0x34, 0x56, 0x78];

    assert_eq!(
        argb32_words_to_rgba(&words, ByteOrder::Little),
        vec![0x56, 0x34, 0x12, 0x78]
    );
    assert_eq!(
        argb32_words_to_rgba(&words, ByteOrder::Big),
        vec![0x34, 0x56, 0x78, 0x12]
    );
}
