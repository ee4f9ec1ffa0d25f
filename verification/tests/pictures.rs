use qd2::error::Failure;
use qd2::viewer::cursor::Cursor;
use qd2::viewer::cursor::CursorState;
use qd2::viewer::cursor::GuestCursor;
use qd2::viewer::cursor::PointerLook;
use qd2::viewer::dmabuf::check_texture;
use qd2::viewer::dmabuf::dmabuf_update_region;
use qd2::viewer::dmabuf::pad_fds;
use qd2::viewer::dmabuf::pad_values;
use qd2::viewer::dmabuf::single_plane_shape;
use qd2::viewer::dmabuf::DmabufFrame;
use qd2::viewer::dmabuf::DmabufViewTransform;
use qd2::viewer::dmabuf::PaintableState;
use qd2::viewer::dmabuf::UpdateDMABUF;
use qd2::viewer::events::ViewerEvent;
use qd2::viewer::framebuffer::FramePatch;
use qd2::viewer::framebuffer::FrameRect;
use qd2::viewer::framebuffer::FrameSnapshot;
use qd2::viewer::framebuffer::Framebuffer;
use qd2::viewer::framebuffer::Scanout;
use qd2::viewer::framebuffer::ScanoutMap;
use qd2::viewer::framebuffer::Update;
use qd2::viewer::framebuffer::UpdateMap;
use qd2::viewer::pixel::ByteOrder;
use qd2::viewer::pixel::PixelFormat;
use qd2::viewer::pixel::PIXMAN_A8B8G8R8;
use qd2::viewer::pixel::PIXMAN_X8R8G8B8;
use qd2::viewer::stream::FrameStreamHandler;
use qd2::viewer::surface::apply_rgba_patch_to_cairo_argb32;
use qd2::viewer::surface::premultiply;
use qd2::viewer::surface::surface_access_failure;
use qd2::viewer::surface::whole_patch;
use qd2::viewer::surface::PatchLayout;
use qd2::viewer::surface::SoftwarePaintableState;

fn scanout(width: u32, height: u32, data: Vec<u8>) -> Scanout {
    Scanout {
        width,
        height,
        stride: 4 * width,
        format: PIXMAN_A8B8G8R8,
        data,
    }
}

fn update(x: i32, y: i32, w: i32, h: i32, data: Vec<u8>) -> Update {
    Update {
        x,
        y,
        w,
        h,
        stride: 4 * w as u32,
        format: PIXMAN_A8B8G8R8,
        data,
    }
}

fn failure_of(result: Result<FrameRect, Failure>) -> String {
    result.expect_err("the update should be refused").in_full()
}

#[test]
fn pixels_are_read_in_both_byte_orders() {
    let bytes = [1u8, 2, 3, 4];
    let expected = [
        (PixelFormat::A8b8g8r8, [1, 2, 3, 4], [4, 3, 2, 1]),
        (PixelFormat::A8r8g8b8, [3, 2, 1, 4], [2, 3, 4, 1]),
        (PixelFormat::B8g8r8a8, [2, 3, 4, 1], [3, 2, 1, 4]),
        (PixelFormat::B8g8r8x8, [2, 3, 4, 255], [3, 2, 1, 255]),
        (PixelFormat::R8g8b8a8, [4, 3, 2, 1], [1, 2, 3, 4]),
        (PixelFormat::R8g8b8x8, [4, 3, 2, 255], [1, 2, 3, 255]),
        (PixelFormat::X8b8g8r8, [1, 2, 3, 255], [4, 3, 2, 255]),
        (PixelFormat::X8r8g8b8, [3, 2, 1, 255], [2, 3, 4, 255]),
    ];
    for (format, little, big) in expected {
        let pixel = format.pixel_to_rgba(ByteOrder::Little, &bytes, 0);
        assert_eq!([pixel.red, pixel.green, pixel.blue, pixel.alpha], little);
        let pixel = format.pixel_to_rgba(ByteOrder::Big, &bytes, 0);
        assert_eq!([pixel.red, pixel.green, pixel.blue, pixel.alpha], big);
        assert_eq!(
            PixelFormat::try_from(format.pixman_code()).expect("its own code is known"),
            format
        );
    }
    assert_eq!(
        PixelFormat::try_from(0x1234)
            .expect_err("the code is unknown")
            .to_string(),
        "pixel format 0x1234 is not supported yet"
    );
}

#[test]
fn scanouts_that_are_too_short_are_refused() {
    let failure = Framebuffer::from_scanout(scanout(2, 1, vec![0; 7]), ByteOrder::Little)
        .expect_err("seven bytes are too few");
    assert_eq!(
        failure.in_full(),
        "scanout payload is too short for 2x1 stride 8"
    );
    let narrow = Scanout {
        width: 2,
        height: 1,
        stride: 4,
        format: PIXMAN_A8B8G8R8,
        data: vec![0; 4],
    };
    assert_eq!(
        Framebuffer::from_scanout(narrow, ByteOrder::Little)
            .expect_err("the row is too short")
            .in_full(),
        "update payload is too short for the advertised rectangle"
    );
}

#[test]
fn updates_change_their_rectangle_only() {
    let mut frame = Framebuffer::from_scanout(scanout(2, 2, vec![9; 16]), ByteOrder::Little)
        .expect("the frame is complete");
    let rect = frame
        .apply_update(update(1, 0, 1, 1, vec![1, 2, 3, 4]))
        .expect("the update fits");
    assert_eq!(
        rect,
        FrameRect {
            x: 1,
            y: 0,
            width: 1,
            height: 1
        }
    );
    assert_eq!(
        frame.snapshot().data,
        vec![9, 9, 9, 9, 1, 2, 3, 4, 9, 9, 9, 9, 9, 9, 9, 9]
    );
    let patch = frame.patch(rect);
    assert_eq!((patch.x, patch.y, patch.width, patch.height), (1, 0, 1, 1));
    assert_eq!(patch.data, vec![1, 2, 3, 4]);
}

#[test]
fn updates_outside_the_frame_are_refused() {
    let mut frame = Framebuffer::from_scanout(scanout(2, 2, vec![9; 16]), ByteOrder::Little)
        .expect("the frame is complete");
    let out = "out of range integral type conversion attempted";
    assert_eq!(
        failure_of(frame.apply_update(update(-1, 0, 1, 1, vec![0; 4]))),
        format!("negative update x coordinate: {out}")
    );
    assert_eq!(
        failure_of(frame.apply_update(update(0, -1, 1, 1, vec![0; 4]))),
        format!("negative update y coordinate: {out}")
    );
    let mut odd = update(0, 0, 1, 1, vec![0; 4]);
    odd.w = -1;
    assert_eq!(
        failure_of(frame.apply_update(odd)),
        format!("negative update width: {out}")
    );
    let mut odd = update(0, 0, 1, 1, vec![0; 4]);
    odd.h = -1;
    assert_eq!(
        failure_of(frame.apply_update(odd)),
        format!("negative update height: {out}")
    );
    assert_eq!(
        failure_of(frame.apply_update(update(1, 1, 2, 1, vec![0; 8]))),
        "update rectangle falls outside the framebuffer bounds"
    );
    let mut odd = update(0, 0, 1, 1, vec![0; 4]);
    odd.format = PIXMAN_X8R8G8B8;
    assert_eq!(
        failure_of(frame.apply_update(odd)),
        "update format 0x20020888 does not match the current framebuffer format 0x20038888"
    );
    assert_eq!(frame.snapshot().data, vec![9; 16]);

    assert_eq!(
        failure_of(frame.apply_update(update(0, 0, 1, 2, vec![7; 7]))),
        "update payload is too short for the advertised rectangle"
    );
    assert_eq!(frame.snapshot().data[..8], [7, 7, 7, 7, 9, 9, 9, 9]);
}

#[test]
fn shared_frames_are_read_again() {
    let map = || ScanoutMap {
        width: 1,
        height: 2,
        stride: 8,
        format: PIXMAN_A8B8G8R8,
    };
    let memory: Vec<u8> = (0..16).collect();
    let mut frame = Framebuffer::from_map(map(), Ok(&memory), ByteOrder::Little)
        .expect("the memory holds the frame");
    assert_eq!(frame.snapshot().data, vec![0, 1, 2, 3, 8, 9, 10, 11]);
    let later: Vec<u8> = (100..116).collect();
    let lower = UpdateMap {
        x: 0,
        y: 1,
        w: 1,
        h: 1,
    };
    frame
        .refresh_mapped_region(lower, &later)
        .expect("the row is there");
    assert_eq!(frame.snapshot().data, vec![0, 1, 2, 3, 108, 109, 110, 111]);
    assert_eq!(
        failure_of(frame.refresh_mapped_region(lower, &later[..9])),
        "mapped update rectangle falls outside the shared framebuffer"
    );
    assert_eq!(
        Framebuffer::from_map(map(), Ok(&memory[..15]), ByteOrder::Little)
            .expect_err("the memory is too short")
            .in_full(),
        "mapped framebuffer is too short for 1x2 stride 8"
    );
    assert_eq!(
        Framebuffer::from_map(map(), Err(Failure::of("denied")), ByteOrder::Little)
            .expect_err("there is no memory")
            .in_full(),
        "failed to map the shared framebuffer: denied"
    );
    let mut linear = Framebuffer::from_scanout(scanout(1, 2, vec![0; 8]), ByteOrder::Little)
        .expect("the frame is complete");
    assert_eq!(
        failure_of(linear.refresh_mapped_region(lower, &later)),
        "received a shared-memory update without a shared-memory scanout"
    );
}

#[test]
fn colours_are_multiplied_by_their_alpha() {
    for channel in 0..=255u8 {
        assert_eq!(premultiply(channel, 255), channel);
        assert_eq!(premultiply(channel, 0), 0);
        for alpha in [1u8, 77, 128, 200] {
            let exact = (u32::from(channel) * u32::from(alpha) + 127) / 255;
            assert_eq!(u32::from(premultiply(channel, alpha)), exact);
            assert!(premultiply(channel, alpha) <= alpha);
        }
    }
}

#[test]
fn patches_are_painted_where_they_belong() {
    let layout = PatchLayout {
        surface_stride: 8,
        x: 1,
        y: 1,
        width: 1,
        height: 1,
        patch_stride: 4,
    };
    let mut surface = vec![0u8; 16];
    apply_rgba_patch_to_cairo_argb32(
        ByteOrder::Little,
        &mut surface,
        layout,
        &[10, 20, 30, 255],
    )
    .expect("the patch fits");
    assert_eq!(surface[12..], [30, 20, 10, 255]);
    assert_eq!(surface[..12], [0; 12]);
    apply_rgba_patch_to_cairo_argb32(ByteOrder::Big, &mut surface, layout, &[10, 20, 30, 255])
        .expect("the patch fits");
    assert_eq!(surface[12..], [255, 10, 20, 30]);

    assert_eq!(
        apply_rgba_patch_to_cairo_argb32(ByteOrder::Little, &mut surface, layout, &[1, 2, 3])
            .expect_err("three bytes are too few")
            .to_string(),
        "software patch payload is too short for the advertised rectangle"
    );
    assert_eq!(
        apply_rgba_patch_to_cairo_argb32(
            ByteOrder::Little,
            &mut surface[..15],
            layout,
            &[1, 2, 3, 4]
        )
        .expect_err("the surface is too small")
        .to_string(),
        "software patch rectangle falls outside the presenter surface"
    );
}

fn snapshot(width: u32, height: u32) -> FrameSnapshot {
    FrameSnapshot {
        width,
        height,
        stride: 4 * width as usize,
        data: vec![255; 4 * (width * height) as usize],
    }
}

#[test]
fn surfaces_follow_the_size_of_the_frame() {
    let mut state = SoftwarePaintableState::new();
    let frame = snapshot(2, 1);
    assert!(state.size_changed(&frame));
    let patch = whole_patch(snapshot(2, 1));
    assert_eq!(
        state
            .check_patch(&patch)
            .expect_err("there is no surface yet")
            .to_string(),
        "software presenter patch arrived before the initial frame"
    );
    let plan = state
        .plan_surface(&frame, Ok(8))
        .expect("the size is valid")
        .expect("a surface is needed");
    assert_eq!(
        (plan.width, plan.height, plan.stride, plan.bytes),
        (2, 1, 8, 8)
    );
    assert_eq!(
        state
            .plan_surface(&frame, Err(Failure::of("odd width")))
            .expect_err("there is no stride")
            .in_full(),
        "invalid cairo stride for the framebuffer: odd width"
    );
    assert_eq!(
        state
            .install_surface(&frame, Err(Failure::of("no memory")))
            .expect_err("there is no surface")
            .in_full(),
        "failed to allocate the software framebuffer surface: no memory"
    );
    state
        .install_surface(&frame, Ok(()))
        .expect("the surface is there");
    assert!(!state.size_changed(&frame));
    assert!(state
        .plan_surface(&frame, Ok(8))
        .expect("the size is valid")
        .is_none());
    assert_eq!((state.width(), state.height()), (2, 1));
    assert_eq!((state.intrinsic_width(), state.intrinsic_height()), (2, 1));

    let mut surface = vec![0u8; 8];
    let dirty = state
        .apply_patch(ByteOrder::Little, &patch, 8, &mut surface)
        .expect("the patch fits");
    assert_eq!((dirty.x, dirty.y, dirty.width, dirty.height), (0, 0, 2, 1));
    assert_eq!(surface, vec![255; 8]);

    let outside = FramePatch {
        x: 2,
        y: 0,
        width: 1,
        height: 1,
        stride: 4,
        data: vec![0; 4],
    };
    assert_eq!(
        state
            .check_patch(&outside)
            .expect_err("the patch is outside")
            .to_string(),
        "software framebuffer patch falls outside the presenter bounds"
    );
    assert_eq!(
        surface_access_failure(Failure::of("locked")).in_full(),
        "failed to access the software framebuffer surface data: locked"
    );
}

#[test]
fn the_stream_turns_calls_into_events() {
    let mut handler = FrameStreamHandler::new(ByteOrder::Little);
    assert!(handler
        .update(update(0, 0, 1, 1, vec![1, 2, 3, 4]))
        .is_none());
    assert!(matches!(
        handler.scanout(scanout(1, 1, vec![])),
        ViewerEvent::Status(text)
            if text == "Unsupported framebuffer: scanout payload is too short for 1x1 stride 4"
    ));
    assert!(matches!(
        handler.scanout(scanout(1, 1, vec![9; 4])),
        ViewerEvent::Frame(frame) if frame.data == vec![9; 4]
    ));
    assert!(matches!(
        handler.update(update(0, 0, 1, 1, vec![1, 2, 3, 4])),
        Some(ViewerEvent::FramePatch(patch)) if patch.data == vec![1, 2, 3, 4]
    ));
    assert!(matches!(
        handler.update(update(1, 0, 1, 1, vec![1, 2, 3, 4])),
        Some(ViewerEvent::Status(text))
            if text == "Failed to apply framebuffer update: update rectangle falls outside the framebuffer bounds"
    ));
    let lower = UpdateMap {
        x: 0,
        y: 0,
        w: 1,
        h: 1,
    };
    assert!(matches!(
        handler.update_map(lower, &[0; 4]),
        Some(ViewerEvent::Status(text))
            if text == "Failed to refresh the shared framebuffer update: received a shared-memory update without a shared-memory scanout"
    ));
    let map = ScanoutMap {
        width: 1,
        height: 1,
        stride: 4,
        format: PIXMAN_A8B8G8R8,
    };
    assert!(matches!(
        handler.scanout_map(map, Ok(&[5, 6, 7, 8])),
        ViewerEvent::Frame(frame) if frame.data == vec![5, 6, 7, 8]
    ));
    assert!(matches!(
        handler.update_map(lower, &[1, 1, 1, 1]),
        Some(ViewerEvent::FramePatch(patch)) if patch.data == vec![1, 1, 1, 1]
    ));
    assert!(matches!(
        handler.mouse_set(0),
        ViewerEvent::CursorVisibilityChanged(false)
    ));
    assert!(matches!(
        handler.mouse_set(-1),
        ViewerEvent::CursorVisibilityChanged(true)
    ));
    assert!(matches!(
        handler.disable(),
        ViewerEvent::Status(text) if text == "The guest display was disabled."
    ));
    assert!(handler.update_map(lower, &[1, 1, 1, 1]).is_none());
    assert!(matches!(
        handler.scanout_dmabuf(Err(Failure::of("no planes"))),
        ViewerEvent::Status(text) if text == "Unsupported DMABUF scanout: no planes"
    ));
    assert!(matches!(
        handler.disconnected(),
        Some(ViewerEvent::Disconnected)
    ));
    assert!(handler.disconnected().is_none());
    assert_eq!(
        handler.interfaces(),
        vec![
            "org.qemu.Display1.Listener.Unix.Map",
            "org.qemu.Display1.Listener.Unix.ScanoutDMABUF2"
        ]
    );
}

fn cursor(width: i32, height: i32, hot: i32, data: Vec<u8>) -> Cursor {
    Cursor {
        width,
        height,
        hot_x: hot,
        hot_y: hot,
        data,
    }
}

#[test]
fn cursor_shapes_are_checked() {
    let shape = GuestCursor::from_qemu(cursor(1, 1, 9, vec![1, 2, 3, 4]), ByteOrder::Little)
        .expect("the shape is complete")
        .expect("the shape is not empty");
    assert_eq!(shape.rgba, vec![3, 2, 1, 4]);
    assert_eq!((shape.hotspot_x, shape.hotspot_y), (0, 0));
    assert_eq!(shape.stride(), 4);
    let shape = GuestCursor::from_qemu(cursor(2, 1, -9, vec![0; 8]), ByteOrder::Big)
        .expect("the shape is complete")
        .expect("the shape is not empty");
    assert_eq!((shape.hotspot_x, shape.hotspot_y), (0, 0));

    let handler = FrameStreamHandler::new(ByteOrder::Little);
    assert!(matches!(
        handler.cursor_define(cursor(1, 1, 0, vec![1, 2, 3, 4])),
        ViewerEvent::CursorShapeChanged(Some(shape)) if shape.rgba == vec![3, 2, 1, 4]
    ));
    assert!(matches!(
        handler.cursor_define(cursor(2, 2, 0, vec![])),
        ViewerEvent::Status(text) if text.starts_with("Could not decode guest cursor: ")
    ));
}

#[test]
fn the_pointer_looks_as_the_guest_wants() {
    let mut state = CursorState::default();
    state.set_visible(true);
    assert_eq!(state.look(), PointerLook::Inherited);
    let shape = GuestCursor::from_qemu(cursor(1, 1, 0, vec![1, 2, 3, 4]), ByteOrder::Little)
        .expect("the shape is complete");
    state.set_shape(shape);
    assert_eq!(state.look(), PointerLook::Shape);
    assert!(state.shape().is_some());
    state.set_capture_hidden(true);
    assert_eq!(state.look(), PointerLook::Hidden);
    state.set_capture_hidden(false);
    state.set_visible(false);
    assert_eq!(state.look(), PointerLook::Hidden);
}

#[test]
fn buffers_need_a_descriptor_for_each_plane() {
    let mut shape = single_plane_shape(4, 2, 16, 0x3432_5258, 0, true);
    let frame = DmabufFrame::try_from_raw_parts(pad_fds(&vec![7]), shape)
        .expect("the descriptor is valid");
    assert_eq!(frame.fds, vec![7]);
    assert_eq!(
        check_texture(&frame.shape, 1, true).expect("the counts agree"),
        1
    );
    assert_eq!(
        check_texture(&frame.shape, 2, true)
            .expect_err("the counts differ")
            .to_string(),
        "DMABUF reported 1 planes but provided 2 file descriptors"
    );
    assert_eq!(
        check_texture(&frame.shape, 1, false)
            .expect_err("the format is unknown")
            .to_string(),
        "GTK does not support DMABUF fourcc 0x34325258 with modifier 0x0"
    );

    shape.num_planes = 2;
    let rejection = DmabufFrame::try_from_raw_parts(pad_fds(&vec![7]), shape)
        .expect_err("the second descriptor is missing");
    assert_eq!(
        rejection.failure.to_string(),
        "DMABUF plane 1 did not provide a valid file descriptor"
    );
    assert_eq!(rejection.adopted, vec![7]);
    shape.num_planes = 5;
    assert_eq!(
        DmabufFrame::try_from_raw_parts([1, 2, 3, 4], shape)
            .expect_err("five planes are too many")
            .failure
            .to_string(),
        "DMABUF plane count 5 is not supported"
    );
    shape.num_planes = 0;
    assert!(DmabufFrame::try_from_raw_parts([1, 2, 3, 4], shape).is_err());
    assert_eq!(pad_values(&vec![1, 2], 9), [1, 2, 9, 9]);
    assert_eq!(pad_values(&vec![1, 2, 3, 4, 5], 9), [1, 2, 3, 4]);
}

#[test]
fn views_turn_and_flip() {
    let mut transform = DmabufViewTransform::default();
    assert_eq!(
        transform.describe(),
        "DMABUF transform: rotate=0 extra-flip-y=on"
    );
    assert!(transform.needs_vertical_flip(true));
    assert!(!transform.needs_vertical_flip(false));
    transform.toggle_vertical_flip();
    assert!(!transform.needs_vertical_flip(true));
    transform.rotate_clockwise();
    assert_eq!(transform.rotation_degrees(), 90);
    assert_eq!(
        transform.describe(),
        "DMABUF transform: rotate=90 extra-flip-y=off"
    );

    let mut state = PaintableState::default();
    assert!(!state.shown());
    let shape = single_plane_shape(4, 2, 16, 0, 0, true);
    assert!(state.update_from_presentation(&shape, transform));
    assert!(state.shown());
    assert_eq!(state.quarter_turns(), 1);
    assert_eq!((state.intrinsic_width(), state.intrinsic_height()), (4, 2));
    assert!(!state.needs_vertical_flip());
    transform.reset();
    assert!(!state.update_from_presentation(&shape, transform));
    assert_eq!(state.quarter_turns(), 0);
    assert!(state.needs_vertical_flip());
    let larger = single_plane_shape(u32::MAX, 2, 16, 0, 0, false);
    assert!(state.update_from_presentation(&larger, transform));
    assert_eq!(
        (state.intrinsic_width(), state.intrinsic_height()),
        (i32::MAX, 2)
    );
}

#[test]
fn changes_of_buffers_become_regions() {
    let change = |x: i32, y: i32, w: i32, h: i32| UpdateDMABUF { x, y, w, h };
    let region = dmabuf_update_region(
        &vec![change(0, 0, 2, 2), change(9, 9, 1, 1), change(3, -1, 9, 2)],
        4,
        4,
    )
    .expect("two changes are visible");
    let parts: Vec<(i32, i32, i32, i32)> = region
        .iter()
        .map(|rect| (rect.x, rect.y, rect.width, rect.height))
        .collect();
    assert_eq!(parts, vec![(0, 0, 2, 2), (3, 0, 1, 1)]);
    assert!(dmabuf_update_region(&vec![change(0, 0, 0, 2)], 4, 4).is_none());
}
