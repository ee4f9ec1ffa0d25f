use qd2::viewer::dmabuf::dmabuf_update_rectangle;
use qd2::viewer::dmabuf::DmabufViewTransform;
use qd2::viewer::dmabuf::UpdateDMABUF;
use qd2::viewer::framebuffer::Framebuffer;
use qd2::viewer::framebuffer::Scanout;
use qd2::viewer::input::input_needs_mouse_mode;
use qd2::viewer::input::InputEvent;
use qd2::viewer::input::MouseButton;
use qd2::viewer::keymap::linux_keycode_to_qnum;
use qd2::viewer::pixel::ByteOrder;
use qd2::viewer::pixel::PixelFormat;

#[test]
fn viewer_snapshot_converts_xrgb_pixels_to_rgba() {
    let framebuffer = Framebuffer::from_scanout(
        Scanout {
            width: 1,
            height: 1,
            stride: 4,
            format: PixelFormat::X8r8g8b8.pixman_code(),
            data: vec![0x10, 0x20, 0x30, 0x00],
        },
        ByteOrder::Little,
    )
    .expect("x8r8g8b8 scanout should be accepted");

    let snapshot = framebuffer.snapshot();
    assert_eq!(snapshot.stride, 4);
    assert_eq!(snapshot.data, vec![0x30, 0x20, 0x10, 0xff]);
}

#[test]
fn mod_snapshot_converts_xrgb_pixels_to_rgba() {
    let scanout = Scanout {
        width: 1,
        height: 1,
        stride: 4,
        format: PixelFormat::X8r8g8b8.pixman_code(),
        data: vec![0x10, 0x20, 0x30, 0x00],
    };
    let framebuffer = Framebuffer::from_scanout(scanout, ByteOrder::Little)
        .expect("x8r8g8b8 scanout should be accepted");

    let snapshot = framebuffer.snapshot();
    assert_eq!(snapshot.stride, 4);
    assert_eq!(snapshot.data, vec![0x30, 0x20, 0x10, 0xff]);
}

#[test]
fn viewer_snapshot_preserves_abgr_alpha() {
    let framebuffer = Framebuffer::from_scanout(
        Scanout {
            width: 1,
            height: 1,
            stride: 4,
            format: PixelFormat::A8b8g8r8.pixman_code(),
            data: vec![0x12, 0x34, 0x56, 0x78],
        },
        ByteOrder::Little,
    )
    .expect("a8b8g8r8 scanout should be accepted");

    let snapshot = framebuffer.snapshot();
    assert_eq!(snapshot.data, vec![0x12, 0x34, 0x56, 0x78]);
}

#[test]
fn mod_snapshot_preserves_abgr_alpha() {
    let scanout = Scanout {
        width: 1,
        height: 1,
        stride: 4,
        format: PixelFormat::A8b8g8r8.pixman_code(),
        data: vec![0x12, 0x34, 0x56, 0x78],
    };
    let framebuffer = Framebuffer::from_scanout(scanout, ByteOrder::Little)
        .expect("a8b8g8r8 scanout should be accepted");

    let snapshot = framebuffer.snapshot();
    assert_eq!(snapshot.data, vec![0x12, 0x34, 0x56, 0x78]);
}

#[test]
fn viewer_snapshot_respects_framebuffer_stride() {
    let framebuffer = Framebuffer::from_scanout(
        Scanout {
            width: 1,
            height: 2,
            stride: 8,
            format: PixelFormat::B8g8r8x8.pixman_code(),
            data: vec![
                0x00, 0x11, 0x22, 0x33, 0xaa, 0xbb, 0xcc, 0xdd, 0x00, 0x44, 0x55, 0x66, 0xee, 0xff,
                0x11, 0x22,
            ],
        },
        ByteOrder::Little,
    )
    .expect("b8g8r8x8 scanout should be accepted");

    let snapshot = framebuffer.snapshot();
    assert_eq!(snapshot.stride, 4);
    assert_eq!(
        snapshot.data,
        vec![0x11, 0x22, 0x33, 0xff, 0x44, 0x55, 0x66, 0xff]
    );
}

#[test]
fn mod_snapshot_respects_framebuffer_stride() {
    let scanout = Scanout {
        width: 1,
        height: 2,
        stride: 8,
        format: PixelFormat::B8g8r8x8.pixman_code(),
        data: vec![
            0x00, 0x11, 0x22, 0x33, 0xaa, 0xbb, 0xcc, 0xdd, 0x00, 0x44, 0x55, 0x66, 0xee, 0xff,
            0x11, 0x22,
        ],
    };
    let framebuffer = Framebuffer::from_scanout(scanout, ByteOrder::Little)
        .expect("b8g8r8x8 scanout should be accepted");

    let snapshot = framebuffer.snapshot();
    assert_eq!(snapshot.stride, 4);
    assert_eq!(
        snapshot.data,
        vec![0x11, 0x22, 0x33, 0xff, 0x44, 0x55, 0x66, 0xff]
    );
}

#[test]
fn viewer_extended_linux_keycodes_are_translated_to_qnum() {
    assert_eq!(linux_keycode_to_qnum(97), Some(157));
    assert_eq!(linux_keycode_to_qnum(103), Some(200));
    assert_eq!(linux_keycode_to_qnum(125), Some(219));
}

#[test]
fn mod_extended_linux_keycodes_are_translated_to_qnum() {
    assert_eq!(linux_keycode_to_qnum(97), Some(157));
    assert_eq!(linux_keycode_to_qnum(103), Some(200));
    assert_eq!(linux_keycode_to_qnum(125), Some(219));
}

#[test]
fn mouse_mode_is_only_rechecked_for_motion_inputs() {
    assert!(input_needs_mouse_mode(&InputEvent::MouseAbs { x: 1, y: 2 }));
    assert!(input_needs_mouse_mode(&InputEvent::MouseRel {
        dx: 3,
        dy: -4
    }));
    assert!(!input_needs_mouse_mode(&InputEvent::MousePress(
        MouseButton::Left
    )));
    assert!(!input_needs_mouse_mode(&InputEvent::KeyPress(42)));
}

#[test]
fn viewer_dmabuf_update_rectangles_are_clipped_to_the_frame() {
    let rect = dmabuf_update_rectangle(
        UpdateDMABUF {
            x: -8,
            y: 4,
            w: 20,
            h: 12,
        },
        16,
        10,
    )
    .expect("partially visible DMABUF updates should be clipped");

    assert_eq!(rect.x, 0);
    assert_eq!(rect.y, 4);
    assert_eq!(rect.width, 12);
    assert_eq!(rect.height, 6);

    assert!(
        dmabuf_update_rectangle(
            UpdateDMABUF {
                x: 40,
                y: 0,
                w: 5,
                h: 5,
            },
            16,
            10,
        )
        .is_none(),
        "fully out-of-bounds DMABUF updates should be ignored",
    );
}

#[test]
fn mod_dmabuf_update_rectangles_are_clipped_to_the_frame() {
    let partly = UpdateDMABUF {
        x: -8,
        y: 4,
        w: 20,
        h: 12,
    };
    let rect = dmabuf_update_rectangle(partly, 16, 10)
        .expect("partially visible DMABUF updates should be clipped");

    assert_eq!(rect.x, 0);
    assert_eq!(rect.y, 4);
    assert_eq!(rect.width, 12);
    assert_eq!(rect.height, 6);

    let outside = UpdateDMABUF {
        x: 40,
        y: 0,
        w: 5,
        h: 5,
    };
    assert!(
        dmabuf_update_rectangle(outside, 16, 10).is_none(),
        "fully out-of-bounds DMABUF updates should be ignored",
    );
}

#[test]
fn dmabuf_transform_describe_handles_all_quarter_turns() {
    let mut transform = DmabufViewTransform::default();

    assert!(transform.describe().contains("rotate=0"));

    transform.rotate_clockwise();
    assert!(transform.describe().contains("rotate=90"));

    transform.rotate_clockwise();
    assert!(transform.describe().contains("rotate=180"));

    transform.rotate_clockwise();
    assert!(transform.describe().contains("rotate=270"));

    transform.rotate_clockwise();
    assert!(transform.describe().contains("rotate=0"));
}
