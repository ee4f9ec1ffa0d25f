//! From what the guest's display sends to what the window is told.

use vstd::prelude::*;

use super::cursor::Cursor;
use super::cursor::GuestCursor;
use super::dmabuf::DmabufFrame;
use super::dmabuf::UpdateDMABUF;
use super::events::is_status;
use super::events::ViewerEvent;
use super::framebuffer::frame_strides_are_not_negative;
use super::framebuffer::last_mapped_row_decides;
use super::framebuffer::last_row_decides;
use super::framebuffer::linear_failure;
use super::framebuffer::linear_success;
use super::framebuffer::mapped_failure;
use super::framebuffer::mapped_success;
use super::framebuffer::mapping_view;
use super::framebuffer::patch_shows;
use super::framebuffer::rect_in_frame;
use super::framebuffer::whole;
use super::framebuffer::FramePatch;
use super::framebuffer::FrameRect;
use super::framebuffer::Framebuffer;
use super::framebuffer::Scanout;
use super::framebuffer::ScanoutMap;
use super::framebuffer::Update;
use super::framebuffer::UpdateMap;
use super::pixel::codes_are_distinct;
use super::pixel::format_of;
use super::pixel::supported;
use super::pixel::ByteOrder;
use super::pixel::PixelFormat;
use crate::error::Failure;
use crate::text::concat2;
use crate::text::joined;
use crate::text::no_texts;
use crate::text::push_text;
use crate::text::texts;

verus! {

/// Follows the guest's display.
#[derive(Debug)]
pub struct FrameStreamHandler {
    order: ByteOrder,
    framebuffer: Option<Framebuffer>,
    disconnected: bool,
}

/// The event is the whole of the frame.
pub open spec fn is_snapshot_of(event: ViewerEvent, frame: Framebuffer) -> bool {
    &&& event matches ViewerEvent::Frame(snapshot)
    &&& snapshot.width == frame.spec_width()
    &&& snapshot.height == frame.spec_height()
    &&& snapshot.stride == snapshot.width * 4
    &&& snapshot.data.len() == snapshot.stride * snapshot.height
    &&& forall|x: int, y: int|
        frame.holds(x, y) ==> #[trigger] snapshot.pixel(x, y) == frame.pixel(x, y)
}

/// The event is a part of the frame.
pub open spec fn is_patch_of(event: ViewerEvent, frame: Framebuffer, rect: FrameRect) -> bool {
    &&& event matches ViewerEvent::FramePatch(patch)
    &&& patch_shows(patch, frame, rect)
    &&& patch.stride == rect.width * 4
    &&& patch.data.len() == patch.stride * patch.height
}

/// A status with a failure behind it.
pub open spec fn failure_status(head: Seq<char>, failure: Seq<Seq<char>>) -> Seq<char> {
    head + joined(failure, ": "@)
}

fn status_for(head: &str, failure: &Failure) -> (event: ViewerEvent)
    ensures
        is_status(event, failure_status(head@, failure@)),
{
    let reason = failure.in_full();
    ViewerEvent::Status(concat2(head, reason.as_str()))
}

impl FrameStreamHandler {
    /// The frame, if there is one, is consistent.
    pub closed spec fn wf(&self) -> bool {
        self.framebuffer matches Some(frame) ==> frame.wf()
    }

    /// The byte order of the machine.
    pub closed spec fn spec_order(&self) -> ByteOrder {
        self.order
    }

    /// The frame.
    pub closed spec fn frame(&self) -> Option<Framebuffer> {
        self.framebuffer
    }

    /// The end of the display has been told.
    pub closed spec fn ended(&self) -> bool {
        self.disconnected
    }

    /// No frame yet.
    pub fn new(order: ByteOrder) -> (handler: FrameStreamHandler)
        ensures
            handler.wf(),
            handler.spec_order() == order,
            handler.frame() is None,
            !handler.ended(),
    {
        FrameStreamHandler { order, framebuffer: None, disconnected: false }
    }

    /// The guest has sent a whole frame. A frame that cannot be shown leaves the last one in place.
    pub fn scanout(&mut self, scanout: Scanout) -> (event: ViewerEvent)
        requires
            old(self).wf(),
        ensures
            final(self).wf(),
            final(self).spec_order() == old(self).spec_order(),
            final(self).ended() == old(self).ended(),
            match scanout.failure() {
                Some(message) => {
                    &&& is_status(
                        event,
                        failure_status("Unsupported framebuffer: "@, seq![message]),
                    )
                    &&& final(self).frame() == old(self).frame()
                },
                None => {
                    &&& final(self).frame() matches Some(frame)
                    &&& frame.spec_width() == scanout.width
                    &&& frame.spec_height() == scanout.height
                    &&& frame.spec_format() == format_of(scanout.format)
                    &&& frame.spec_order() == old(self).spec_order()
                    &&& !frame.spec_mapped()
                    &&& forall|x: int, y: int|
                        frame.holds(x, y) ==> #[trigger] frame.pixel(x, y) == format_of(
                            scanout.format,
                        ).decoded(
                            old(self).spec_order(),
                            scanout.data@,
                            y * scanout.stride + x * 4,
                        )
                    &&& is_snapshot_of(event, frame)
                },
            },
    {
        match Framebuffer::from_scanout(scanout, self.order) {
            Ok(frame) => {
                let snapshot = frame.snapshot();
                self.framebuffer = Some(frame);
                ViewerEvent::Frame(snapshot)
            },
            Err(failure) => status_for("Unsupported framebuffer: ", &failure),
        }
    }

    /// The guest has sent a part of a frame. Without a frame there is nothing to update.
    pub fn update(&mut self, update: Update) -> (event: Option<ViewerEvent>)
        requires
            old(self).wf(),
        ensures
            final(self).wf(),
            final(self).spec_order() == old(self).spec_order(),
            final(self).ended() == old(self).ended(),
            match old(self).frame() {
                None => event is None && final(self).frame() is None,
                Some(before) => {
                    &&& final(self).frame() matches Some(after)
                    &&& after.same_shape(&before)
                    &&& match before.update_rect(update) {
                        Err(message) => {
                            &&& after == before
                            &&& event matches Some(status)
                            &&& is_status(
                                status,
                                failure_status("Failed to apply framebuffer update: "@, message),
                            )
                        },
                        Ok(rect) => {
                            &&& forall|x: int, y: int|
                                after.holds(x, y) ==> #[trigger] after.pixel(x, y) == if rect.has(
                                    x,
                                    y,
                                ) && super::framebuffer::linear_row_fits(
                                    rect,
                                    update.stride as int,
                                    update.data@.len() as int,
                                    y,
                                ) {
                                    after.spec_format().decoded(
                                        after.spec_order(),
                                        update.data@,
                                        super::framebuffer::linear_source(
                                            rect,
                                            update.stride as int,
                                            x,
                                            y,
                                        ),
                                    )
                                } else {
                                    before.pixel(x, y)
                                }
                            &&& match linear_failure(
                                rect,
                                update.stride as int,
                                update.data@.len() as int,
                                0,
                            ) {
                                Some(message) => event matches Some(status) && is_status(
                                    status,
                                    failure_status(
                                        "Failed to apply framebuffer update: "@,
                                        seq![message],
                                    ),
                                ),
                                None => event matches Some(patch) && is_patch_of(
                                    patch,
                                    after,
                                    rect,
                                ),
                            }
                        },
                    }
                },
            },
    {
        let mut frame = match self.framebuffer.take() {
            Some(frame) => frame,
            None => return None,
        };
        let event = match frame.apply_update(update) {
            Ok(rect) => ViewerEvent::FramePatch(frame.patch(rect)),
            Err(failure) => status_for("Failed to apply framebuffer update: ", &failure),
        };
        self.framebuffer = Some(frame);
        Some(event)
    }

    /// The guest shares its frame in memory. `mapping` is that memory, or why it could not be
    /// mapped.
    pub fn scanout_map(&mut self, scanout: ScanoutMap, mapping: Result<&[u8], Failure>) -> (event:
        ViewerEvent)
        requires
            old(self).wf(),
        ensures
            final(self).wf(),
            final(self).spec_order() == old(self).spec_order(),
            final(self).ended() == old(self).ended(),
            match scanout.failure(mapping_view(mapping)) {
                Some(message) => {
                    &&& is_status(
                        event,
                        failure_status("Could not map the shared framebuffer: "@, message),
                    )
                    &&& final(self).frame() == old(self).frame()
                },
                None => {
                    &&& final(self).frame() matches Some(frame)
                    &&& frame.spec_width() == scanout.width
                    &&& frame.spec_height() == scanout.height
                    &&& frame.spec_format() == format_of(scanout.format)
                    &&& frame.spec_order() == old(self).spec_order()
                    &&& frame.spec_stride() == scanout.stride
                    &&& frame.spec_mapped()
                    &&& forall|x: int, y: int|
                        frame.holds(x, y) ==> #[trigger] frame.pixel(x, y) == format_of(
                            scanout.format,
                        ).decoded(
                            old(self).spec_order(),
                            mapping_view(mapping)->Ok_0,
                            y * scanout.stride + x * 4,
                        )
                    &&& is_snapshot_of(event, frame)
                },
            },
    {
        match Framebuffer::from_map(scanout, mapping, self.order) {
            Ok(frame) => {
                let snapshot = frame.snapshot();
                self.framebuffer = Some(frame);
                ViewerEvent::Frame(snapshot)
            },
            Err(failure) => status_for("Could not map the shared framebuffer: ", &failure),
        }
    }

    /// A part of the shared frame has changed. `data` is the shared memory.
    pub fn update_map(&mut self, update: UpdateMap, data: &[u8]) -> (event: Option<ViewerEvent>)
        requires
            old(self).wf(),
        ensures
            final(self).wf(),
            final(self).spec_order() == old(self).spec_order(),
            final(self).ended() == old(self).ended(),
            match old(self).frame() {
                None => event is None && final(self).frame() is None,
                Some(before) => {
                    &&& final(self).frame() matches Some(after)
                    &&& after.same_shape(&before)
                    &&& match rect_in_frame(
                        before.spec_width(),
                        before.spec_height(),
                        update.x,
                        update.y,
                        update.w,
                        update.h,
                    ) {
                        Err(message) => {
                            &&& after == before
                            &&& event matches Some(status)
                            &&& is_status(
                                status,
                                failure_status(
                                    "Failed to refresh the shared framebuffer update: "@,
                                    message,
                                ),
                            )
                        },
                        Ok(rect) => if !before.spec_mapped() {
                            &&& after == before
                            &&& event matches Some(status)
                            &&& is_status(
                                status,
                                failure_status(
                                    "Failed to refresh the shared framebuffer update: "@,
                                    seq![
                                        "received a shared-memory update without a shared-memory scanout"@,
                                    ],
                                ),
                            )
                        } else {
                            &&& forall|x: int, y: int|
                                after.holds(x, y) ==> #[trigger] after.pixel(x, y) == if rect.has(
                                    x,
                                    y,
                                ) && super::framebuffer::mapped_row_fits(
                                    rect,
                                    after.spec_stride(),
                                    data@.len() as int,
                                    y,
                                ) {
                                    after.spec_format().decoded(
                                        after.spec_order(),
                                        data@,
                                        y * after.spec_stride() + x * 4,
                                    )
                                } else {
                                    before.pixel(x, y)
                                }
                            &&& match mapped_failure(
                                rect,
                                after.spec_stride(),
                                data@.len() as int,
                                0,
                            ) {
                                Some(message) => event matches Some(status) && is_status(
                                    status,
                                    failure_status(
                                        "Failed to refresh the shared framebuffer update: "@,
                                        seq![message],
                                    ),
                                ),
                                None => event matches Some(patch) && is_patch_of(
                                    patch,
                                    after,
                                    rect,
                                ),
                            }
                        },
                    }
                },
            },
    {
        let mut frame = match self.framebuffer.take() {
            Some(frame) => frame,
            None => return None,
        };
        let event = match frame.refresh_mapped_region(update, data) {
            Ok(rect) => ViewerEvent::FramePatch(frame.patch(rect)),
            Err(failure) => status_for(
                "Failed to refresh the shared framebuffer update: ",
                &failure,
            ),
        };
        self.framebuffer = Some(frame);
        Some(event)
    }

    /// The guest hands its frame over as a DMA buffer, or in a form that is refused. In the first
    /// case the frame in memory is let go.
    pub fn scanout_dmabuf(&mut self, frame: Result<DmabufFrame, Failure>) -> (event: ViewerEvent)
        requires
            old(self).wf(),
        ensures
            final(self).wf(),
            final(self).spec_order() == old(self).spec_order(),
            final(self).ended() == old(self).ended(),
            match frame {
                Ok(scanout) => {
                    &&& final(self).frame() is None
                    &&& event == ViewerEvent::Dmabuf(scanout)
                },
                Err(failure) => {
                    &&& final(self).frame() == old(self).frame()
                    &&& is_status(
                        event,
                        failure_status("Unsupported DMABUF scanout: "@, failure@),
                    )
                },
            },
    {
        match frame {
            Ok(scanout) => {
                self.framebuffer = None;
                ViewerEvent::Dmabuf(scanout)
            },
            Err(failure) => status_for("Unsupported DMABUF scanout: ", &failure),
        }
    }

    /// A part of the DMA buffer has changed.
    pub fn update_dmabuf(&self, update: UpdateDMABUF) -> (event: ViewerEvent)
        ensures
            event == ViewerEvent::DmabufUpdate(update),
    {
        ViewerEvent::DmabufUpdate(update)
    }

    /// The guest has switched its display off.
    pub fn disable(&mut self) -> (event: ViewerEvent)
        ensures
            final(self).wf(),
            final(self).spec_order() == old(self).spec_order(),
            final(self).ended() == old(self).ended(),
            final(self).frame() is None,
            is_status(event, "The guest display was disabled."@),
    {
        self.framebuffer = None;
        ViewerEvent::Status("The guest display was disabled.".to_owned())
    }

    /// The guest has placed, shown or hidden its cursor. Where it is does not matter: the host's
    /// pointer is there already.
    pub fn mouse_set(&self, on: i32) -> (event: ViewerEvent)
        ensures
            event == ViewerEvent::CursorVisibilityChanged(on != 0),
    {
        ViewerEvent::CursorVisibilityChanged(on != 0)
    }

    /// The guest has defined its cursor.
    pub fn cursor_define(&self, cursor: Cursor) -> (event: ViewerEvent)
        ensures
            match cursor.failure() {
                Some(message) => is_status(
                    event,
                    failure_status("Could not decode guest cursor: "@, message),
                ),
                None => {
                    &&& event matches ViewerEvent::CursorShapeChanged(shape)
                    &&& match shape {
                        None => cursor.width == 0 || cursor.height == 0,
                        Some(found) => {
                            &&& found.width == cursor.width
                            &&& found.height == cursor.height
                            &&& found.width > 0
                            &&& found.height > 0
                            &&& found.hotspot_x == super::cursor::clamped(
                                cursor.hot_x as int,
                                cursor.width - 1,
                            )
                            &&& found.hotspot_y == super::cursor::clamped(
                                cursor.hot_y as int,
                                cursor.height - 1,
                            )
                            &&& super::cursor::rgba_of_words(
                                self.spec_order(),
                                cursor.data@.take(cursor.width * cursor.height * 4),
                                found.rgba@,
                            )
                        },
                    }
                },
            },
    {
        match GuestCursor::from_qemu(cursor, self.order) {
            Ok(shape) => ViewerEvent::CursorShapeChanged(shape),
            Err(failure) => status_for("Could not decode guest cursor: ", &failure),
        }
    }

    /// The display is gone. The window hears of it once.
    pub fn disconnected(&mut self) -> (event: Option<ViewerEvent>)
        ensures
            old(self).wf() ==> final(self).wf(),
            final(self).ended(),
            final(self).frame() == old(self).frame(),
            final(self).spec_order() == old(self).spec_order(),
            event == if old(self).ended() {
                None
            } else {
                Some(ViewerEvent::Disconnected)
            },
    {
        if self.disconnected {
            None
        } else {
            self.disconnected = true;
            Some(ViewerEvent::Disconnected)
        }
    }

    /// The interfaces that the listener offers beside the basic one.
    pub fn interfaces(&self) -> (list: Vec<String>)
        ensures
            texts(list@) == seq![
                "org.qemu.Display1.Listener.Unix.Map"@,
                "org.qemu.Display1.Listener.Unix.ScanoutDMABUF2"@,
            ],
    {
        let mut list = no_texts();
        push_text(&mut list, "org.qemu.Display1.Listener.Unix.Map".to_owned());
        push_text(&mut list, "org.qemu.Display1.Listener.Unix.ScanoutDMABUF2".to_owned());
        assert(texts(list@) =~= seq![
            "org.qemu.Display1.Listener.Unix.Map"@,
            "org.qemu.Display1.Listener.Unix.ScanoutDMABUF2"@,
        ]);
        list
    }
}

/// A frame that the guest sends is shown whole exactly where its format is supported, its bytes
/// cover its rows and its size fits in memory; else the last frame stays. What the window is handed
/// has the frame's size and, row by row, the pixels of the payload.
pub proof fn sent_frames_are_shown(
    handler: &mut FrameStreamHandler,
    scanout: Scanout,
    event: ViewerEvent,
)
    requires
        old(handler).wf(),
        call_ensures(FrameStreamHandler::scanout, (handler, scanout), event),
    ensures
        event is Frame <==> {
            &&& exists|format: PixelFormat| format.code() == scanout.format
            &&& scanout.height * scanout.stride <= scanout.data@.len()
            &&& scanout.width * scanout.height * 4 <= usize::MAX
            &&& scanout.width * 4 <= usize::MAX
            &&& scanout.height == 0 || (scanout.height - 1) * scanout.stride + scanout.width * 4
                <= scanout.data@.len()
        },
        event is Frame || event is Status,
        event is Status ==> final(handler).frame() == old(handler).frame(),
        event matches ViewerEvent::Frame(snapshot) ==> {
            &&& final(handler).frame() is Some
            &&& (snapshot.width, snapshot.height) == (scanout.width, scanout.height)
            &&& snapshot.stride == scanout.width * 4
            &&& snapshot.data@.len() == scanout.width * 4 * scanout.height
            &&& forall|format: PixelFormat, x: int, y: int|
                #![trigger format.code(), snapshot.pixel(x, y)]
                format.code() == scanout.format && 0 <= x < scanout.width && 0 <= y < scanout.height
                    ==> snapshot.pixel(x, y) == format.decoded(
                    old(handler).spec_order(),
                    scanout.data@,
                    y * scanout.stride + x * 4,
                )
        },
{
    assert(scanout.data@.len() == scanout.data.len());
    last_row_decides(
        whole(scanout.width, scanout.height),
        scanout.stride as int,
        scanout.data@.len() as int,
        0,
    );
    if event is Frame {
        let snapshot = event->Frame_0;
        let frame = final(handler).frame()->0;
        assert forall|format: PixelFormat, x: int, y: int|
            #![trigger format.code(), snapshot.pixel(x, y)]
            format.code() == scanout.format && 0 <= x < scanout.width && 0 <= y
                < scanout.height implies snapshot.pixel(x, y) == format.decoded(
            old(handler).spec_order(),
            scanout.data@,
            y * scanout.stride + x * 4,
        ) by {
            codes_are_distinct(format, format_of(scanout.format));
            assert(frame.holds(x, y));
            assert(snapshot.pixel(x, y) == frame.pixel(x, y));
        }
    }
}

/// An update that the guest sends reaches the window as a patch exactly where there is a frame, the
/// update is in its format and lies in it, and the payload covers its rows. The patch is the
/// update's rectangle with the payload's pixels. Without a frame nothing is said.
pub proof fn sent_updates_become_patches(
    handler: &mut FrameStreamHandler,
    update: Update,
    event: Option<ViewerEvent>,
)
    requires
        old(handler).wf(),
        call_ensures(FrameStreamHandler::update, (handler, update), event),
    ensures
        event is None <==> old(handler).frame() is None,
        event matches Some(told) ==> told is FramePatch || told is Status,
        event is Some ==> (event->0 is FramePatch <==> {
            let frame = old(handler).frame()->0;
            &&& update.format == frame.spec_format().code()
            &&& 0 <= update.x && 0 <= update.w && update.x + update.w <= frame.spec_width()
            &&& 0 <= update.y && 0 <= update.h && update.y + update.h <= frame.spec_height()
            &&& update.h == 0 || (update.h - 1) * update.stride + update.w * 4
                <= update.data@.len()
        }),
        event matches Some(ViewerEvent::FramePatch(patch)) ==> {
            let frame = old(handler).frame()->0;
            &&& patch.x == update.x && patch.y == update.y
            &&& patch.width == update.w && patch.height == update.h
            &&& patch.stride == update.w * 4
            &&& patch.data@.len() == update.w * 4 * update.h
            &&& forall|column: int, row: int|
                0 <= column < update.w && 0 <= row < update.h ==> #[trigger] patch.pixel(
                    column,
                    row,
                ) == frame.spec_format().decoded(
                    frame.spec_order(),
                    update.data@,
                    row * update.stride + column * 4,
                )
        },
{
    let stride = update.stride as int;
    let available = update.data@.len() as int;
    assert(available == update.data.len());
    if old(handler).frame() is Some {
        let before = old(handler).frame()->0;
        let after = final(handler).frame()->0;
        let format = before.spec_format();
        if supported(update.format) {
            assert(format_of(update.format).code() == update.format);
            if format.code() == update.format {
                codes_are_distinct(format, format_of(update.format));
            }
        } else {
            assert(format.code() != update.format);
        }
        if before.update_rect(update) is Ok {
            let rect = before.update_rect(update)->Ok_0;
            last_row_decides(rect, stride, available, 0);
            if event->0 is FramePatch {
                let patch = event->0->FramePatch_0;
                linear_success(rect, stride, available, 0);
                assert forall|column: int, row: int|
                    0 <= column < update.w && 0 <= row < update.h implies #[trigger] patch.pixel(
                    column,
                    row,
                ) == format.decoded(
                    before.spec_order(),
                    update.data@,
                    row * update.stride + column * 4,
                ) by {
                    let (x, y) = (rect.x + column, rect.y + row);
                    assert(patch.pixel(column, row) == after.pixel(x, y));
                    assert(rect.has(x, y));
                    assert(super::framebuffer::linear_row_fits(rect, stride, available, y));
                    assert(after.holds(x, y));
                }
            }
        }
    }
}

/// A shared frame is shown whole exactly where its format is supported, the memory could be mapped
/// and covers its rows, and its size fits in memory; else the last frame stays.
pub proof fn shared_frames_are_shown(
    handler: &mut FrameStreamHandler,
    scanout: ScanoutMap,
    mapping: Result<&[u8], Failure>,
    event: ViewerEvent,
)
    requires
        old(handler).wf(),
        call_ensures(FrameStreamHandler::scanout_map, (handler, scanout, mapping), event),
    ensures
        event is Frame <==> {
            &&& exists|format: PixelFormat| format.code() == scanout.format
            &&& mapping is Ok
            &&& scanout.height * scanout.stride <= mapping->Ok_0@.len()
            &&& scanout.width * scanout.height * 4 <= usize::MAX
            &&& scanout.width * 4 <= usize::MAX
            &&& scanout.height == 0 || (scanout.height - 1) * scanout.stride + scanout.width * 4
                <= mapping->Ok_0@.len()
        },
        event is Frame || event is Status,
        event is Status ==> final(handler).frame() == old(handler).frame(),
        event matches ViewerEvent::Frame(snapshot) ==> {
            &&& final(handler).frame() is Some
            &&& (snapshot.width, snapshot.height) == (scanout.width, scanout.height)
            &&& snapshot.stride == scanout.width * 4
            &&& forall|format: PixelFormat, x: int, y: int|
                #![trigger format.code(), snapshot.pixel(x, y)]
                format.code() == scanout.format && 0 <= x < scanout.width && 0 <= y < scanout.height
                    ==> snapshot.pixel(x, y) == format.decoded(
                    old(handler).spec_order(),
                    mapping->Ok_0@,
                    y * scanout.stride + x * 4,
                )
        },
{
    if mapping is Ok {
        assert(mapping->Ok_0@.len() == mapping->Ok_0.len());
        last_mapped_row_decides(
            whole(scanout.width, scanout.height),
            scanout.stride as int,
            mapping->Ok_0@.len() as int,
            0,
        );
    }
    if event is Frame {
        let snapshot = event->Frame_0;
        let frame = final(handler).frame()->0;
        assert forall|format: PixelFormat, x: int, y: int|
            #![trigger format.code(), snapshot.pixel(x, y)]
            format.code() == scanout.format && 0 <= x < scanout.width && 0 <= y
                < scanout.height implies snapshot.pixel(x, y) == format.decoded(
            old(handler).spec_order(),
            mapping->Ok_0@,
            y * scanout.stride + x * 4,
        ) by {
            codes_are_distinct(format, format_of(scanout.format));
            assert(frame.holds(x, y));
            assert(snapshot.pixel(x, y) == frame.pixel(x, y));
        }
    }
}

/// A change of the shared frame reaches the window as a patch exactly where there is a shared
/// frame, the rectangle lies in it and the memory covers its rows. The patch is that rectangle of
/// the memory. Without a frame nothing is said.
pub proof fn shared_updates_become_patches(
    handler: &mut FrameStreamHandler,
    update: UpdateMap,
    data: &[u8],
    event: Option<ViewerEvent>,
)
    requires
        old(handler).wf(),
        call_ensures(FrameStreamHandler::update_map, (handler, update, data), event),
    ensures
        event is None <==> old(handler).frame() is None,
        event matches Some(told) ==> told is FramePatch || told is Status,
        event is Some ==> (event->0 is FramePatch <==> {
            let frame = old(handler).frame()->0;
            &&& frame.spec_mapped()
            &&& 0 <= update.x && 0 <= update.w && update.x + update.w <= frame.spec_width()
            &&& 0 <= update.y && 0 <= update.h && update.y + update.h <= frame.spec_height()
            &&& update.h == 0 || (update.y + update.h - 1) * frame.spec_stride() + (update.x
                + update.w) * 4 <= data@.len()
        }),
        event matches Some(ViewerEvent::FramePatch(patch)) ==> {
            let frame = old(handler).frame()->0;
            &&& patch.x == update.x && patch.y == update.y
            &&& patch.width == update.w && patch.height == update.h
            &&& patch.stride == update.w * 4
            &&& patch.data@.len() == update.w * 4 * update.h
            &&& forall|column: int, row: int|
                0 <= column < update.w && 0 <= row < update.h ==> #[trigger] patch.pixel(
                    column,
                    row,
                ) == frame.spec_format().decoded(
                    frame.spec_order(),
                    data@,
                    (update.y + row) * frame.spec_stride() + (update.x + column) * 4,
                )
        },
{
    let available = data@.len() as int;
    assert(available == data.len());
    if old(handler).frame() is Some {
        let before = old(handler).frame()->0;
        let after = final(handler).frame()->0;
        let stride = before.spec_stride();
        let taken = rect_in_frame(
            before.spec_width(),
            before.spec_height(),
            update.x,
            update.y,
            update.w,
            update.h,
        );
        frame_strides_are_not_negative(before);
        if taken is Ok && before.spec_mapped() {
            let rect = taken->Ok_0;
            last_mapped_row_decides(rect, stride, available, 0);
            if event->0 is FramePatch {
                let patch = event->0->FramePatch_0;
                mapped_success(rect, stride, available, 0);
                assert forall|column: int, row: int|
                    0 <= column < update.w && 0 <= row < update.h implies #[trigger] patch.pixel(
                    column,
                    row,
                ) == before.spec_format().decoded(
                    before.spec_order(),
                    data@,
                    (update.y + row) * stride + (update.x + column) * 4,
                ) by {
                    let (x, y) = (rect.x + column, rect.y + row);
                    assert(patch.pixel(column, row) == after.pixel(x, y));
                    assert(rect.has(x, y));
                    assert(super::framebuffer::mapped_row_fits(rect, stride, available, y));
                    assert(after.holds(x, y));
                }
            }
        }
    }
}

/// The end of the display is told exactly once, whatever comes between.
pub proof fn the_end_is_told_once(handler: &mut FrameStreamHandler, event: Option<ViewerEvent>)
    requires
        call_ensures(FrameStreamHandler::disconnected, (handler,), event),
    ensures
        event is Some <==> !old(handler).ended(),
        event matches Some(told) ==> told is Disconnected,
        final(handler).ended(),
{
}

/// A display that is switched off, or that moves to a DMA buffer, has no frame in memory any more:
/// no update of one reaches the window.
pub proof fn frames_are_let_go(
    off: &mut FrameStreamHandler,
    moved: &mut FrameStreamHandler,
    frame: Result<DmabufFrame, Failure>,
    event: ViewerEvent,
    told: ViewerEvent,
)
    requires
        old(moved).wf(),
        call_ensures(FrameStreamHandler::disable, (off,), event),
        call_ensures(FrameStreamHandler::scanout_dmabuf, (moved, frame), told),
    ensures
        final(off).frame() is None && event is Status,
        frame matches Ok(buffer) ==> told == ViewerEvent::Dmabuf(buffer) && final(moved).frame()
            is None,
        frame is Err ==> told is Status && final(moved).frame() == old(moved).frame(),
{
}

/// The guest shows its cursor with any number but zero.
pub proof fn cursors_are_shown_as_asked(handler: FrameStreamHandler, on: i32, event: ViewerEvent)
    requires
        call_ensures(FrameStreamHandler::mouse_set, (&handler, on), event),
    ensures
        event is CursorVisibilityChanged,
        event->CursorVisibilityChanged_0 <==> on < 0 || on > 0,
{
}

}
