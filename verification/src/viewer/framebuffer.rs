//! The framebuffer that mirrors the guest display.

use vstd::prelude::*;

use super::pixel::codes_are_distinct;
use super::pixel::format_of;
use super::pixel::rgba_at;
use super::pixel::supported;
use super::pixel::unsupported_text;
use super::pixel::ByteOrder;
use super::pixel::PixelFormat;
use super::pixel::Rgba;
use super::pixel::RGBA_BYTES_PER_PIXEL;
use crate::error::out_of_range;
use crate::error::Failure;
use crate::error::OUT_OF_RANGE;
use crate::text::concat4;
use crate::text::concat7;
use crate::text::number::decimal;
use crate::text::number::hex;
use crate::text::number::to_decimal;
use crate::text::number::to_hex;

verus! {

/// A whole frame as the guest sends it.
#[derive(Debug)]
pub struct Scanout {
    pub width: u32,
    pub height: u32,
    pub stride: u32,
    pub format: u32,
    pub data: Vec<u8>,
}

/// A part of a frame as the guest sends it.
#[derive(Debug)]
pub struct Update {
    pub x: i32,
    pub y: i32,
    pub w: i32,
    pub h: i32,
    pub stride: u32,
    pub format: u32,
    pub data: Vec<u8>,
}

/// A whole frame in memory that the guest shares.
#[derive(Copy, Clone, Debug)]
pub struct ScanoutMap {
    pub width: u32,
    pub height: u32,
    pub stride: u32,
    pub format: u32,
}

/// A changed part of a frame in shared memory.
#[derive(Copy, Clone, Debug)]
pub struct UpdateMap {
    pub x: i32,
    pub y: i32,
    pub w: i32,
    pub h: i32,
}

/// A frame as RGBA rows of `stride` bytes.
#[derive(Debug)]
pub struct FrameSnapshot {
    pub width: u32,
    pub height: u32,
    pub stride: usize,
    pub data: Vec<u8>,
}

/// A part of a frame as RGBA rows of `stride` bytes, with the place where it belongs.
#[derive(Debug, PartialEq, Eq)]
pub struct FramePatch {
    pub x: u32,
    pub y: u32,
    pub width: u32,
    pub height: u32,
    pub stride: usize,
    pub data: Vec<u8>,
}

/// A rectangle of pixels.
#[derive(Copy, Clone, Debug, PartialEq, Eq, Structural)]
pub struct FrameRect {
    pub x: usize,
    pub y: usize,
    pub width: usize,
    pub height: usize,
}

impl FrameRect {
    /// The pixel lies in the rectangle.
    pub open spec fn has(self, x: int, y: int) -> bool {
        self.x <= x < self.x + self.width && self.y <= y < self.y + self.height
    }
}

/// The position of a pixel's first byte in rows of `width` RGBA pixels.
pub open spec fn pixel_offset(width: int, x: int, y: int) -> int {
    (y * width + x) * 4
}

/// The pixel at a place of an image of `width` RGBA pixels a row.
pub open spec fn pixel_in(bytes: Seq<u8>, width: int, x: int, y: int) -> Rgba {
    rgba_at(bytes, pixel_offset(width, x, y))
}

impl FrameSnapshot {
    /// The pixel at a place of the frame.
    pub open spec fn pixel(&self, x: int, y: int) -> Rgba {
        rgba_at(self.data@, y * self.stride + x * 4)
    }
}

impl FramePatch {
    /// The pixel at a place of the patch.
    pub open spec fn pixel(&self, x: int, y: int) -> Rgba {
        rgba_at(self.data@, y * self.stride + x * 4)
    }
}

proof fn offset_is_inside(width: int, height: int, x: int, y: int)
    requires
        0 <= x < width,
        0 <= y < height,
    ensures
        0 <= pixel_offset(width, x, y),
        pixel_offset(width, x, y) + 4 <= width * height * 4,
        y * width + width <= width * height,
{
    assert(0 <= y * width) by (nonlinear_arith)
        requires
            0 <= y,
            0 < width,
    ;
    assert(y * width + width <= width * height) by (nonlinear_arith)
        requires
            0 <= y < height,
            0 < width,
    ;
}

proof fn offsets_are_apart(width: int, x: int, y: int, other_x: int, other_y: int)
    requires
        0 <= x < width,
        0 <= other_x < width,
        (x, y) != (other_x, other_y),
    ensures
        pixel_offset(width, x, y) + 4 <= pixel_offset(width, other_x, other_y) || pixel_offset(
            width,
            other_x,
            other_y,
        ) + 4 <= pixel_offset(width, x, y),
{
    if y < other_y {
        assert(y * width + width <= other_y * width) by (nonlinear_arith)
            requires
                y < other_y,
                0 < width,
        ;
    } else if other_y < y {
        assert(other_y * width + width <= y * width) by (nonlinear_arith)
            requires
                other_y < y,
                0 < width,
        ;
    }
}

/// Writes one pixel.
fn put_pixel(bytes: &mut Vec<u8>, at: usize, pixel: Rgba)
    requires
        at + 4 <= old(bytes).len(),
    ensures
        final(bytes).len() == old(bytes).len(),
        rgba_at(final(bytes)@, at as int) == pixel,
        forall|other: int| #[trigger]
            rgba_at(final(bytes)@, other) == rgba_at(old(bytes)@, other) || other + 4 > at && at + 4
                > other || other < 0 || other + 4 > old(bytes).len(),
{
    bytes[at] = pixel.red;
    bytes[at + 1] = pixel.green;
    bytes[at + 2] = pixel.blue;
    bytes[at + 3] = pixel.alpha;
}

/// Writes `count` pixels, read from `start` of `data` on, into row `y` of the image, from column
/// `x` on.
fn write_row(
    format: PixelFormat,
    order: ByteOrder,
    data: &[u8],
    start: usize,
    bytes: &mut Vec<u8>,
    width: usize,
    Ghost(height): Ghost<int>,
    x: usize,
    y: usize,
    count: usize,
)
    requires
        start + count * 4 <= data@.len(),
        old(bytes).len() == width * height * 4,
        x + count <= width,
        y < height,
    ensures
        final(bytes).len() == old(bytes).len(),
        forall|px: int, py: int|
            0 <= px < width && 0 <= py < height ==> #[trigger] pixel_in(
                final(bytes)@,
                width as int,
                px,
                py,
            ) == if py == y && x <= px < x + count {
                format.decoded(order, data@, start + (px - x) * 4)
            } else {
                pixel_in(old(bytes)@, width as int, px, py)
            },
{
    let ghost before = bytes@;
    for i in 0..count
        invariant
            start + count * 4 <= data@.len(),
            bytes.len() == before.len(),
            before.len() == width * height * 4,
            x + count <= width,
            y < height,
            forall|px: int, py: int|
                0 <= px < width && 0 <= py < height ==> #[trigger] pixel_in(
                    bytes@,
                    width as int,
                    px,
                    py,
                ) == if py == y && x <= px < x + i {
                    format.decoded(order, data@, start + (px - x) * 4)
                } else {
                    pixel_in(before, width as int, px, py)
                },
    {
        assert(data@.len() == data.len());
        let pixel = format.pixel_to_rgba(order, data, start + i * 4);
        proof {
            offset_is_inside(width as int, height, x + i, y as int);
            assert(0 <= y * width) by (nonlinear_arith)
                requires
                    0 <= y,
                    0 <= width,
            ;
        }
        let at: usize = (y * width + x + i) * 4;
        let ghost current = bytes@;
        put_pixel(bytes, at, pixel);
        assert forall|px: int, py: int|
            0 <= px < width && 0 <= py < height implies #[trigger] pixel_in(
            bytes@,
            width as int,
            px,
            py,
        ) == if py == y && x <= px < x + i + 1 {
            format.decoded(order, data@, start + (px - x) * 4)
        } else {
            pixel_in(before, width as int, px, py)
        } by {
            offset_is_inside(width as int, height, px, py);
            if (px, py) != (x + i, y as int) {
                offsets_are_apart(width as int, px, py, x + i, y as int);
                assert(pixel_in(bytes@, width as int, px, py) == pixel_in(
                    current,
                    width as int,
                    px,
                    py,
                ));
            }
        }
    }
}


/// What goes wrong with one row of a payload: `start` is where it begins, `len` its length.
pub open spec fn linear_row_failure(start: int, len: int, available: int) -> Option<Seq<char>> {
    if start > usize::MAX {
        Some("update source offset overflow"@)
    } else if start + len > usize::MAX {
        Some("update source range overflow"@)
    } else if start + len > available {
        Some("update payload is too short for the advertised rectangle"@)
    } else {
        None
    }
}

/// What goes wrong first, from row `row` on, with a payload of rows `stride` bytes apart.
pub open spec fn linear_failure(
    rect: FrameRect,
    stride: int,
    available: int,
    row: int,
) -> Option<Seq<char>>
    decreases rect.height - row,
{
    if row >= rect.height {
        None
    } else {
        match linear_row_failure(row * stride, rect.width * 4, available) {
            Some(message) => Some(message),
            None => linear_failure(rect, stride, available, row + 1),
        }
    }
}

/// The pixel of a payload of rows `stride` bytes apart that belongs to a place of the frame.
pub open spec fn linear_source(rect: FrameRect, stride: int, x: int, y: int) -> int {
    (y - rect.y) * stride + (x - rect.x) * 4
}

/// The row of the frame is covered by a payload of rows `stride` bytes apart.
pub open spec fn linear_row_fits(rect: FrameRect, stride: int, available: int, y: int) -> bool {
    (y - rect.y) * stride + rect.width * 4 <= available
}

/// What goes wrong with one row that is read out of a whole frame.
pub open spec fn mapped_row_failure(
    row_start: int,
    column_offset: int,
    len: int,
    available: int,
) -> Option<Seq<char>> {
    if row_start > usize::MAX {
        Some("mapped update row overflow"@)
    } else if row_start + column_offset > usize::MAX {
        Some("mapped update source offset overflow"@)
    } else if row_start + column_offset + len > usize::MAX {
        Some("mapped update source range overflow"@)
    } else if row_start + column_offset + len > available {
        Some("mapped update rectangle falls outside the shared framebuffer"@)
    } else {
        None
    }
}

/// What goes wrong first, from row `row` on, with a rectangle that is read out of a whole frame.
pub open spec fn mapped_failure(
    rect: FrameRect,
    stride: int,
    available: int,
    row: int,
) -> Option<Seq<char>>
    decreases rect.height - row,
{
    if row >= rect.height {
        None
    } else {
        match mapped_row_failure(
            (rect.y + row) * stride,
            rect.x * 4,
            rect.width * 4,
            available,
        ) {
            Some(message) => Some(message),
            None => mapped_failure(rect, stride, available, row + 1),
        }
    }
}

/// The row of the frame is covered by shared memory with rows `stride` bytes apart.
pub open spec fn mapped_row_fits(rect: FrameRect, stride: int, available: int, y: int) -> bool {
    y * stride + rect.x * 4 + rect.width * 4 <= available
}

proof fn later_rows_start_later(stride: int, row: int, later: int)
    requires
        0 <= stride,
        row <= later,
    ensures
        row * stride <= later * stride,
{
    assert(row * stride <= later * stride) by (nonlinear_arith)
        requires
            0 <= stride,
            row <= later,
    ;
}

/// Copies a rectangle out of a payload of rows `stride` bytes apart into the image.
fn blit_linear(
    format: PixelFormat,
    order: ByteOrder,
    rect: FrameRect,
    stride: usize,
    data: &[u8],
    bytes: &mut Vec<u8>,
    width: usize,
    Ghost(height): Ghost<int>,
) -> (result: Result<(), Failure>)
    requires
        old(bytes).len() == width * height * 4,
        rect.x + rect.width <= width,
        rect.y + rect.height <= height,
        width * 4 <= usize::MAX,
        height <= usize::MAX,
    ensures
        final(bytes).len() == old(bytes).len(),
        forall|px: int, py: int|
            0 <= px < width && 0 <= py < height ==> #[trigger] pixel_in(
                final(bytes)@,
                width as int,
                px,
                py,
            ) == if rect.has(px, py) && linear_row_fits(
                rect,
                stride as int,
                data@.len() as int,
                py,
            ) {
                format.decoded(order, data@, linear_source(rect, stride as int, px, py))
            } else {
                pixel_in(old(bytes)@, width as int, px, py)
            },
        match result {
            Ok(_) => linear_failure(rect, stride as int, data@.len() as int, 0) is None,
            Err(failure) => {
                &&& linear_failure(rect, stride as int, data@.len() as int, 0) is Some
                &&& failure@ == seq![
                    linear_failure(rect, stride as int, data@.len() as int, 0)->0,
                ]
            },
        },
{
    let ghost before = bytes@;
    let ghost available = data@.len() as int;
    let size: usize = data.len();
    let row_len: usize = rect.width * 4;
    for row in 0..rect.height
        invariant
            available == data@.len(),
            size == data@.len(),
            row_len == rect.width * 4,
            bytes.len() == before.len(),
            before == old(bytes)@,
            before.len() == width * height * 4,
            rect.x + rect.width <= width,
            rect.y + rect.height <= height,
            height <= usize::MAX,
            linear_failure(rect, stride as int, available, 0) == linear_failure(
                rect,
                stride as int,
                available,
                row as int,
            ),
            forall|px: int, py: int|
                0 <= px < width && 0 <= py < height ==> #[trigger] pixel_in(
                    bytes@,
                    width as int,
                    px,
                    py,
                ) == if rect.has(px, py) && py < rect.y + row {
                    format.decoded(order, data@, linear_source(rect, stride as int, px, py))
                } else {
                    pixel_in(before, width as int, px, py)
                },
            row > 0 ==> (row - 1) * stride + row_len <= available,
    {
        let ghost current = bytes@;
        let checked = checked_row(row, stride, row_len, size);
        match checked {
            Ok(start) => {
                write_row(
                    format,
                    order,
                    data,
                    start,
                    bytes,
                    width,
                    Ghost(height),
                    rect.x,
                    rect.y + row,
                    rect.width,
                );
                assert((row + 1 - 1) * stride == row * stride);
                assert forall|px: int, py: int|
                    0 <= px < width && 0 <= py < height implies #[trigger] pixel_in(
                    bytes@,
                    width as int,
                    px,
                    py,
                ) == if rect.has(px, py) && py < rect.y + row + 1 {
                    format.decoded(order, data@, linear_source(rect, stride as int, px, py))
                } else {
                    pixel_in(before, width as int, px, py)
                } by {
                    let unchanged = pixel_in(current, width as int, px, py);
                }
            },
            Err(failure) => {
                proof {
                    blit_linear_stops(rect, stride as int, available, row as int, row_len as int);
                    assert forall|px: int, py: int|
                        0 <= px < width && 0 <= py < height implies #[trigger] pixel_in(
                        bytes@,
                        width as int,
                        px,
                        py,
                    ) == if rect.has(px, py) && linear_row_fits(
                        rect,
                        stride as int,
                        available,
                        py,
                    ) {
                        format.decoded(order, data@, linear_source(rect, stride as int, px, py))
                    } else {
                        pixel_in(before, width as int, px, py)
                    } by {
                        if rect.has(px, py) {
                            assert(linear_row_fits(rect, stride as int, available, py) == (py
                                < rect.y + row));
                        }
                    }
                }
                return Err(failure);
            },
        }
    }
    proof {
        if rect.height > 0 {
            blit_linear_covers(rect, stride as int, available);
        }
        assert forall|px: int, py: int|
            0 <= px < width && 0 <= py < height implies #[trigger] pixel_in(
            bytes@,
            width as int,
            px,
            py,
        ) == if rect.has(px, py) && linear_row_fits(rect, stride as int, available, py) {
            format.decoded(order, data@, linear_source(rect, stride as int, px, py))
        } else {
            pixel_in(before, width as int, px, py)
        } by {
            if rect.has(px, py) {
                assert(linear_row_fits(rect, stride as int, available, py));
            }
        }
    }
    Ok(())
}

/// Where a row of a payload starts, or what is wrong with it.
fn checked_row(row: usize, stride: usize, len: usize, available: usize) -> (result: Result<
    usize,
    Failure,
>)
    ensures
        match result {
            Ok(start) => {
                &&& linear_row_failure(row * stride, len as int, available as int) is None
                &&& start == row * stride
            },
            Err(failure) => {
                &&& linear_row_failure(row * stride, len as int, available as int) is Some
                &&& failure@ == seq![
                    linear_row_failure(row * stride, len as int, available as int)->0,
                ]
            },
        },
{
    match row.checked_mul(stride) {
        None => Err(Failure::of("update source offset overflow")),
        Some(start) => match start.checked_add(len) {
            None => Err(Failure::of("update source range overflow")),
            Some(end) => if end > available {
                Err(Failure::of("update payload is too short for the advertised rectangle"))
            } else {
                Ok(start)
            },
        },
    }
}

proof fn blit_linear_stops(rect: FrameRect, stride: int, available: int, row: int, len: int)
    requires
        0 <= stride,
        0 <= row,
        0 <= available <= usize::MAX,
        len == rect.width * 4,
        row > 0 ==> (row - 1) * stride + len <= available,
        row * stride + len > available,
    ensures
        forall|y: int|
            rect.y <= y ==> #[trigger] linear_row_fits(rect, stride, available, y) == (y < rect.y
                + row),
{
    assert forall|y: int| rect.y <= y implies #[trigger] linear_row_fits(
        rect,
        stride,
        available,
        y,
    ) == (y < rect.y + row) by {
        if y < rect.y + row {
            later_rows_start_later(stride, y - rect.y, row - 1);
        } else {
            later_rows_start_later(stride, row, y - rect.y);
        }
    }
}

proof fn blit_linear_covers(rect: FrameRect, stride: int, available: int)
    requires
        0 <= stride,
        rect.height > 0,
        (rect.height - 1) * stride + rect.width * 4 <= available,
    ensures
        forall|y: int|
            rect.y <= y < rect.y + rect.height ==> #[trigger] linear_row_fits(
                rect,
                stride,
                available,
                y,
            ),
{
    assert forall|y: int| rect.y <= y < rect.y + rect.height implies #[trigger] linear_row_fits(
        rect,
        stride,
        available,
        y,
    ) by {
        later_rows_start_later(stride, y - rect.y, rect.height - 1);
    }
}


/// Where a row of a rectangle starts in a whole frame, or what is wrong with it.
fn checked_mapped_row(
    y: usize,
    stride: usize,
    column_offset: usize,
    len: usize,
    available: usize,
) -> (result: Result<usize, Failure>)
    ensures
        match result {
            Ok(start) => {
                &&& mapped_row_failure(
                    y * stride,
                    column_offset as int,
                    len as int,
                    available as int,
                ) is None
                &&& start == y * stride + column_offset
            },
            Err(failure) => {
                let message = mapped_row_failure(
                    y * stride,
                    column_offset as int,
                    len as int,
                    available as int,
                );
                message is Some && failure@ == seq![message->0]
            },
        },
{
    match y.checked_mul(stride) {
        None => Err(Failure::of("mapped update row overflow")),
        Some(row_start) => match row_start.checked_add(column_offset) {
            None => Err(Failure::of("mapped update source offset overflow")),
            Some(start) => match start.checked_add(len) {
                None => Err(Failure::of("mapped update source range overflow")),
                Some(end) => if end > available {
                    Err(
                        Failure::of(
                            "mapped update rectangle falls outside the shared framebuffer",
                        ),
                    )
                } else {
                    Ok(start)
                },
            },
        },
    }
}

/// Copies a rectangle out of a whole frame into the image.
fn blit_mapped(
    format: PixelFormat,
    order: ByteOrder,
    rect: FrameRect,
    stride: usize,
    data: &[u8],
    bytes: &mut Vec<u8>,
    width: usize,
    Ghost(height): Ghost<int>,
) -> (result: Result<(), Failure>)
    requires
        old(bytes).len() == width * height * 4,
        rect.x + rect.width <= width,
        rect.y + rect.height <= height,
        width * 4 <= usize::MAX,
        height <= usize::MAX,
    ensures
        final(bytes).len() == old(bytes).len(),
        forall|px: int, py: int|
            0 <= px < width && 0 <= py < height ==> #[trigger] pixel_in(
                final(bytes)@,
                width as int,
                px,
                py,
            ) == if rect.has(px, py) && mapped_row_fits(
                rect,
                stride as int,
                data@.len() as int,
                py,
            ) {
                format.decoded(order, data@, py * stride + px * 4)
            } else {
                pixel_in(old(bytes)@, width as int, px, py)
            },
        match result {
            Ok(_) => mapped_failure(rect, stride as int, data@.len() as int, 0) is None,
            Err(failure) => {
                &&& mapped_failure(rect, stride as int, data@.len() as int, 0) is Some
                &&& failure@ == seq![
                    mapped_failure(rect, stride as int, data@.len() as int, 0)->0,
                ]
            },
        },
{
    let ghost before = bytes@;
    let ghost available = data@.len() as int;
    let size: usize = data.len();
    let row_len: usize = rect.width * 4;
    let column_offset: usize = rect.x * 4;
    for row in 0..rect.height
        invariant
            available == data@.len(),
            size == data@.len(),
            row_len == rect.width * 4,
            column_offset == rect.x * 4,
            bytes.len() == before.len(),
            before == old(bytes)@,
            before.len() == width * height * 4,
            rect.x + rect.width <= width,
            rect.y + rect.height <= height,
            height <= usize::MAX,
            mapped_failure(rect, stride as int, available, 0) == mapped_failure(
                rect,
                stride as int,
                available,
                row as int,
            ),
            forall|px: int, py: int|
                0 <= px < width && 0 <= py < height ==> #[trigger] pixel_in(
                    bytes@,
                    width as int,
                    px,
                    py,
                ) == if rect.has(px, py) && py < rect.y + row {
                    format.decoded(order, data@, py * stride + px * 4)
                } else {
                    pixel_in(before, width as int, px, py)
                },
            row > 0 ==> mapped_row_fits(rect, stride as int, available, rect.y + row - 1),
    {
        let ghost current = bytes@;
        let checked = checked_mapped_row(rect.y + row, stride, column_offset, row_len, size);
        match checked {
            Ok(start) => {
                write_row(
                    format,
                    order,
                    data,
                    start,
                    bytes,
                    width,
                    Ghost(height),
                    rect.x,
                    rect.y + row,
                    rect.width,
                );
                assert(mapped_row_fits(rect, stride as int, available, rect.y + row));
                assert forall|px: int, py: int|
                    0 <= px < width && 0 <= py < height implies #[trigger] pixel_in(
                    bytes@,
                    width as int,
                    px,
                    py,
                ) == if rect.has(px, py) && py < rect.y + row + 1 {
                    format.decoded(order, data@, py * stride + px * 4)
                } else {
                    pixel_in(before, width as int, px, py)
                } by {
                    let unchanged = pixel_in(current, width as int, px, py);
                }
            },
            Err(failure) => {
                proof {
                    assert(!mapped_row_fits(rect, stride as int, available, rect.y + row));
                    assert forall|px: int, py: int|
                        0 <= px < width && 0 <= py < height implies #[trigger] pixel_in(
                        bytes@,
                        width as int,
                        px,
                        py,
                    ) == if rect.has(px, py) && mapped_row_fits(
                        rect,
                        stride as int,
                        available,
                        py,
                    ) {
                        format.decoded(order, data@, py * stride + px * 4)
                    } else {
                        pixel_in(before, width as int, px, py)
                    } by {
                        if rect.has(px, py) {
                            if py < rect.y + row {
                                later_rows_start_later(stride as int, py, rect.y + row - 1);
                            } else {
                                later_rows_start_later(stride as int, rect.y + row, py);
                            }
                        }
                    }
                }
                return Err(failure);
            },
        }
    }
    proof {
        assert forall|px: int, py: int|
            0 <= px < width && 0 <= py < height implies #[trigger] pixel_in(
            bytes@,
            width as int,
            px,
            py,
        ) == if rect.has(px, py) && mapped_row_fits(rect, stride as int, available, py) {
            format.decoded(order, data@, py * stride + px * 4)
        } else {
            pixel_in(before, width as int, px, py)
        } by {
            if rect.has(px, py) {
                later_rows_start_later(stride as int, py, rect.y + rect.height - 1);
            }
        }
    }
    Ok(())
}

/// The guest display as RGBA pixels, with what is needed to keep it up to date.
#[derive(Debug)]
pub struct Framebuffer {
    width: u32,
    height: u32,
    source_stride: usize,
    format: PixelFormat,
    order: ByteOrder,
    rgba: Vec<u8>,
    mapped: bool,
}

/// The message for a payload that cannot hold the frame.
pub open spec fn short_scanout_text(
    what: Seq<char>,
    width: u32,
    height: u32,
    stride: int,
) -> Seq<char> {
    what + " is too short for "@ + decimal(width as nat) + "x"@ + decimal(height as nat)
        + " stride "@ + decimal(stride as nat)
}

/// A rectangle that covers a whole frame.
pub open spec fn whole(width: u32, height: u32) -> FrameRect {
    FrameRect { x: 0, y: 0, width: width as usize, height: height as usize }
}

impl Scanout {
    /// Why the frame cannot be shown, if it cannot.
    pub open spec fn failure(&self) -> Option<Seq<char>> {
        if !supported(self.format) {
            Some(unsupported_text(self.format))
        } else if self.height * self.stride > usize::MAX {
            Some("framebuffer size overflow"@)
        } else if self.data.len() < self.height * self.stride {
            Some(
                short_scanout_text(
                    "scanout payload"@,
                    self.width,
                    self.height,
                    self.stride as int,
                ),
            )
        } else if self.width * self.height * 4 > usize::MAX {
            Some("RGBA framebuffer size overflow"@)
        } else if self.width * 4 > usize::MAX {
            Some("update row size overflow"@)
        } else {
            linear_failure(
                whole(self.width, self.height),
                self.stride as int,
                self.data.len() as int,
                0,
            )
        }
    }
}

impl ScanoutMap {
    /// Why the shared frame cannot be shown, if it cannot. `mapping` is the shared memory, or why
    /// it could not be mapped.
    pub open spec fn failure(&self, mapping: Result<Seq<u8>, Seq<Seq<char>>>) -> Option<
        Seq<Seq<char>>,
    > {
        if !supported(self.format) {
            Some(seq![unsupported_text(self.format)])
        } else if self.height * self.stride > usize::MAX {
            Some(seq!["mapped framebuffer size overflow"@])
        } else if self.width * self.height * 4 > usize::MAX {
            Some(seq!["mapped RGBA framebuffer size overflow"@])
        } else {
            match mapping {
                Err(cause) => Some(seq!["failed to map the shared framebuffer"@] + cause),
                Ok(bytes) => if bytes.len() < self.height * self.stride {
                    Some(
                        seq![
                            short_scanout_text(
                                "mapped framebuffer"@,
                                self.width,
                                self.height,
                                self.stride as int,
                            ),
                        ],
                    )
                } else if self.width * 4 > usize::MAX {
                    Some(seq!["mapped update row size overflow"@])
                } else {
                    match mapped_failure(
                        whole(self.width, self.height),
                        self.stride as int,
                        bytes.len() as int,
                        0,
                    ) {
                        Some(message) => Some(seq![message]),
                        None => None,
                    }
                },
            }
        }
    }
}

/// What a mapping attempt gave, as plain sequences.
pub open spec fn mapping_view(mapping: Result<&[u8], Failure>) -> Result<
    Seq<u8>,
    Seq<Seq<char>>,
> {
    match mapping {
        Ok(bytes) => Ok(bytes@),
        Err(failure) => Err(failure@),
    }
}

/// The rectangle of an update, or why it is refused.
pub open spec fn rect_in_frame(
    frame_width: u32,
    frame_height: u32,
    x: i32,
    y: i32,
    width: i32,
    height: i32,
) -> Result<FrameRect, Seq<Seq<char>>> {
    if x < 0 {
        Err(seq!["negative update x coordinate"@, OUT_OF_RANGE@])
    } else if y < 0 {
        Err(seq!["negative update y coordinate"@, OUT_OF_RANGE@])
    } else if width < 0 {
        Err(seq!["negative update width"@, OUT_OF_RANGE@])
    } else if height < 0 {
        Err(seq!["negative update height"@, OUT_OF_RANGE@])
    } else if x + width > frame_width || y + height > frame_height {
        Err(seq!["update rectangle falls outside the framebuffer bounds"@])
    } else {
        Ok(
            FrameRect {
                x: x as usize,
                y: y as usize,
                width: width as usize,
                height: height as usize,
            },
        )
    }
}

/// The rectangle of an update, or why it is refused.
fn validate_rect(
    frame_width: u32,
    frame_height: u32,
    x: i32,
    y: i32,
    width: i32,
    height: i32,
) -> (result: Result<FrameRect, Failure>)
    ensures
        match (result, rect_in_frame(frame_width, frame_height, x, y, width, height)) {
            (Ok(rect), Ok(expected)) => rect == expected,
            (Err(failure), Err(expected)) => failure@ == expected,
            _ => false,
        },
{
    if x < 0 {
        return Err(out_of_range("negative update x coordinate".to_owned()));
    }
    if y < 0 {
        return Err(out_of_range("negative update y coordinate".to_owned()));
    }
    if width < 0 {
        return Err(out_of_range("negative update width".to_owned()));
    }
    if height < 0 {
        return Err(out_of_range("negative update height".to_owned()));
    }
    if x as u32 + width as u32 > frame_width || y as u32 + height as u32 > frame_height {
        return Err(Failure::of("update rectangle falls outside the framebuffer bounds"));
    }
    Ok(
        FrameRect {
            x: x as usize,
            y: y as usize,
            width: width as usize,
            height: height as usize,
        },
    )
}

fn short_scanout(what: &str, width: u32, height: u32, stride: u32) -> (failure: Failure)
    ensures
        failure@ == seq![short_scanout_text(what@, width, height, stride as int)],
{
    let w = to_decimal(width as u64);
    let h = to_decimal(height as u64);
    let s = to_decimal(stride as u64);
    Failure::new(
        concat7(what, " is too short for ", w.as_str(), "x", h.as_str(), " stride ", s.as_str()),
    )
}

impl Framebuffer {
    /// The byte count matches the size, and a row fits in memory.
    pub closed spec fn wf(&self) -> bool {
        &&& self.rgba.len() == self.width * self.height * 4
        &&& self.width * 4 <= usize::MAX
    }

    /// The width in pixels.
    pub closed spec fn spec_width(&self) -> u32 {
        self.width
    }

    /// The height in pixels.
    pub closed spec fn spec_height(&self) -> u32 {
        self.height
    }

    /// The format of the guest's pixels.
    pub closed spec fn spec_format(&self) -> PixelFormat {
        self.format
    }

    /// The byte order of the guest's pixels.
    pub closed spec fn spec_order(&self) -> ByteOrder {
        self.order
    }

    /// The distance of two rows of the guest's frame.
    pub closed spec fn spec_stride(&self) -> int {
        self.source_stride as int
    }

    /// The frame lies in shared memory.
    pub closed spec fn spec_mapped(&self) -> bool {
        self.mapped
    }

    /// The pixel at a place of the frame.
    pub closed spec fn pixel(&self, x: int, y: int) -> Rgba {
        pixel_in(self.rgba@, self.width as int, x, y)
    }

    /// The place lies in the frame.
    pub open spec fn holds(&self, x: int, y: int) -> bool {
        0 <= x < self.spec_width() && 0 <= y < self.spec_height()
    }

    /// Everything but the pixels is the same.
    pub open spec fn same_shape(&self, other: &Framebuffer) -> bool {
        &&& self.spec_width() == other.spec_width()
        &&& self.spec_height() == other.spec_height()
        &&& self.spec_format() == other.spec_format()
        &&& self.spec_order() == other.spec_order()
        &&& self.spec_stride() == other.spec_stride()
        &&& self.spec_mapped() == other.spec_mapped()
    }

    /// The framebuffer for a frame that the guest sent.
    pub fn from_scanout(scanout: Scanout, order: ByteOrder) -> (result: Result<
        Framebuffer,
        Failure,
    >)
        ensures
            match result {
                Ok(frame) => {
                    &&& scanout.failure() is None
                    &&& frame.wf()
                    &&& frame.spec_width() == scanout.width
                    &&& frame.spec_height() == scanout.height
                    &&& frame.spec_format() == format_of(scanout.format)
                    &&& frame.spec_order() == order
                    &&& frame.spec_stride() == scanout.stride
                    &&& !frame.spec_mapped()
                    &&& forall|x: int, y: int|
                        frame.holds(x, y) ==> #[trigger] frame.pixel(x, y) == format_of(
                            scanout.format,
                        ).decoded(order, scanout.data@, y * scanout.stride + x * 4)
                },
                Err(failure) => {
                    &&& scanout.failure() is Some
                    &&& failure@ == seq![scanout.failure()->0]
                },
            },
    {
        let format = match PixelFormat::try_from(scanout.format) {
            Ok(format) => format,
            Err(failure) => return Err(failure),
        };
        assert(format == format_of(scanout.format));
        let source_stride: usize = scanout.stride as usize;
        let height: usize = scanout.height as usize;
        let width: usize = scanout.width as usize;
        let expected_len: usize = match height.checked_mul(source_stride) {
            Some(expected_len) => expected_len,
            None => return Err(Failure::of("framebuffer size overflow")),
        };
        if scanout.data.len() < expected_len {
            return Err(
                short_scanout("scanout payload", scanout.width, scanout.height, scanout.stride),
            );
        }
        let rgba_len: usize = match rgba_size(width, height) {
            Some(rgba_len) => rgba_len,
            None => return Err(Failure::of("RGBA framebuffer size overflow")),
        };
        if width.checked_mul(RGBA_BYTES_PER_PIXEL).is_none() {
            return Err(Failure::of("update row size overflow"));
        }
        let mut rgba: Vec<u8> = vec![0; rgba_len];
        let rect = FrameRect { x: 0, y: 0, width, height };
        let blitted = blit_linear(
            format,
            order,
            rect,
            source_stride,
            scanout.data.as_slice(),
            &mut rgba,
            width,
            Ghost(height as int),
        );
        match blitted {
            Err(failure) => Err(failure),
            Ok(_) => {
                let frame = Framebuffer {
                    width: scanout.width,
                    height: scanout.height,
                    source_stride,
                    format,
                    order,
                    rgba,
                    mapped: false,
                };
                proof {
                    linear_success(rect, source_stride as int, scanout.data@.len() as int, 0);
                    assert forall|x: int, y: int| frame.holds(x, y) implies #[trigger] frame.pixel(
                        x,
                        y,
                    ) == format.decoded(order, scanout.data@, y * scanout.stride + x * 4) by {
                        assert(linear_row_fits(
                            rect,
                            source_stride as int,
                            scanout.data@.len() as int,
                            y,
                        ));
                    }
                }
                Ok(frame)
            },
        }
    }

    /// The framebuffer for a frame in shared memory. `mapping` is that memory, or why it could not
    /// be mapped.
    pub fn from_map(
        scanout: ScanoutMap,
        mapping: Result<&[u8], Failure>,
        order: ByteOrder,
    ) -> (result: Result<Framebuffer, Failure>)
        ensures
            match result {
                Ok(frame) => {
                    &&& scanout.failure(mapping_view(mapping)) is None
                    &&& frame.wf()
                    &&& frame.spec_width() == scanout.width
                    &&& frame.spec_height() == scanout.height
                    &&& frame.spec_format() == format_of(scanout.format)
                    &&& frame.spec_order() == order
                    &&& frame.spec_stride() == scanout.stride
                    &&& frame.spec_mapped()
                    &&& forall|x: int, y: int|
                        frame.holds(x, y) ==> #[trigger] frame.pixel(x, y) == format_of(
                            scanout.format,
                        ).decoded(
                            order,
                            mapping_view(mapping)->Ok_0,
                            y * scanout.stride + x * 4,
                        )
                },
                Err(failure) => {
                    &&& scanout.failure(mapping_view(mapping)) is Some
                    &&& failure@ == scanout.failure(mapping_view(mapping))->0
                },
            },
    {
        let format = match PixelFormat::try_from(scanout.format) {
            Ok(format) => format,
            Err(failure) => return Err(failure),
        };
        assert(format == format_of(scanout.format));
        let source_stride: usize = scanout.stride as usize;
        let height: usize = scanout.height as usize;
        let width: usize = scanout.width as usize;
        let expected_len: usize = match height.checked_mul(source_stride) {
            Some(expected_len) => expected_len,
            None => return Err(Failure::of("mapped framebuffer size overflow")),
        };
        let rgba_len: usize = match rgba_size(width, height) {
            Some(rgba_len) => rgba_len,
            None => return Err(Failure::of("mapped RGBA framebuffer size overflow")),
        };
        let bytes = match mapping {
            Ok(bytes) => bytes,
            Err(failure) => {
                return Err(failure.context("failed to map the shared framebuffer".to_owned()));
            },
        };
        if bytes.len() < expected_len {
            return Err(
                short_scanout(
                    "mapped framebuffer",
                    scanout.width,
                    scanout.height,
                    scanout.stride,
                ),
            );
        }
        if width.checked_mul(RGBA_BYTES_PER_PIXEL).is_none() {
            return Err(Failure::of("mapped update row size overflow"));
        }
        let mut rgba: Vec<u8> = vec![0; rgba_len];
        let rect = FrameRect { x: 0, y: 0, width, height };
        let blitted = blit_mapped(
            format,
            order,
            rect,
            source_stride,
            bytes,
            &mut rgba,
            width,
            Ghost(height as int),
        );
        match blitted {
            Err(failure) => Err(failure),
            Ok(_) => {
                let frame = Framebuffer {
                    width: scanout.width,
                    height: scanout.height,
                    source_stride,
                    format,
                    order,
                    rgba,
                    mapped: true,
                };
                proof {
                    mapped_success(rect, source_stride as int, bytes@.len() as int, 0);
                    assert forall|x: int, y: int| frame.holds(x, y) implies #[trigger] frame.pixel(
                        x,
                        y,
                    ) == format.decoded(order, bytes@, y * scanout.stride + x * 4) by {
                        assert(mapped_row_fits(
                            rect,
                            source_stride as int,
                            bytes@.len() as int,
                            y,
                        ));
                    }
                }
                Ok(frame)
            },
        }
    }

    /// Why the update is refused before any pixel is read, if it is; else its rectangle.
    pub open spec fn update_rect(&self, update: Update) -> Result<FrameRect, Seq<Seq<char>>> {
        if !supported(update.format) {
            Err(seq![unsupported_text(update.format)])
        } else if format_of(update.format) != self.spec_format() {
            Err(
                seq![
                    "update format "@ + hex(update.format as nat)
                        + " does not match the current framebuffer format "@ + hex(
                        self.spec_format().code() as nat,
                    ),
                ],
            )
        } else {
            rect_in_frame(
                self.spec_width(),
                self.spec_height(),
                update.x,
                update.y,
                update.w,
                update.h,
            )
        }
    }

    /// Copies an update into the frame, row by row. Rows before one that the payload does not cover
    /// are copied all the same.
    pub fn apply_update(&mut self, update: Update) -> (result: Result<FrameRect, Failure>)
        requires
            old(self).wf(),
        ensures
            final(self).wf(),
            final(self).same_shape(old(self)),
            match old(self).update_rect(update) {
                Err(message) => {
                    &&& result matches Err(failure)
                    &&& failure@ == message
                    &&& *final(self) == *old(self)
                },
                Ok(rect) => {
                    &&& rect.x + rect.width <= final(self).spec_width()
                    &&& rect.y + rect.height <= final(self).spec_height()
                    &&& forall|x: int, y: int|
                        final(self).holds(x, y) ==> #[trigger] final(self).pixel(x, y)
                            == if rect.has(x, y) && linear_row_fits(
                            rect,
                            update.stride as int,
                            update.data@.len() as int,
                            y,
                        ) {
                            final(self).spec_format().decoded(
                                final(self).spec_order(),
                                update.data@,
                                linear_source(rect, update.stride as int, x, y),
                            )
                        } else {
                            old(self).pixel(x, y)
                        }
                    &&& match linear_failure(
                        rect,
                        update.stride as int,
                        update.data@.len() as int,
                        0,
                    ) {
                        None => result == Ok::<FrameRect, Failure>(rect),
                        Some(message) => result matches Err(failure) && failure@ == seq![message],
                    }
                },
            },
    {
        let update_format = match PixelFormat::try_from(update.format) {
            Ok(format) => format,
            Err(failure) => return Err(failure),
        };
        assert(update_format == format_of(update.format));
        if update_format != self.format {
            let theirs = to_hex(update.format as u64);
            let ours = to_hex(self.format.pixman_code() as u64);
            return Err(
                Failure::new(
                    concat4(
                        "update format ",
                        theirs.as_str(),
                        " does not match the current framebuffer format ",
                        ours.as_str(),
                    ),
                ),
            );
        }
        let rect = match validate_rect(
            self.width,
            self.height,
            update.x,
            update.y,
            update.w,
            update.h,
        ) {
            Ok(rect) => rect,
            Err(failure) => return Err(failure),
        };
        let blitted = blit_linear(
            self.format,
            self.order,
            rect,
            update.stride as usize,
            update.data.as_slice(),
            &mut self.rgba,
            self.width as usize,
            Ghost(self.height as int),
        );
        match blitted {
            Ok(_) => Ok(rect),
            Err(failure) => Err(failure),
        }
    }

    /// Copies a changed part of the shared memory `data` into the frame, row by row. Rows before
    /// one that the memory does not cover are copied all the same.
    pub fn refresh_mapped_region(&mut self, update: UpdateMap, data: &[u8]) -> (result: Result<
        FrameRect,
        Failure,
    >)
        requires
            old(self).wf(),
        ensures
            final(self).wf(),
            final(self).same_shape(old(self)),
            match rect_in_frame(
                old(self).spec_width(),
                old(self).spec_height(),
                update.x,
                update.y,
                update.w,
                update.h,
            ) {
                Err(message) => {
                    &&& result matches Err(failure)
                    &&& failure@ == message
                    &&& *final(self) == *old(self)
                },
                Ok(rect) => if !old(self).spec_mapped() {
                    &&& result matches Err(failure)
                    &&& failure@ == seq![
                        "received a shared-memory update without a shared-memory scanout"@,
                    ]
                    &&& *final(self) == *old(self)
                } else {
                    &&& rect.x + rect.width <= final(self).spec_width()
                    &&& rect.y + rect.height <= final(self).spec_height()
                    &&& forall|x: int, y: int|
                        final(self).holds(x, y) ==> #[trigger] final(self).pixel(x, y)
                            == if rect.has(x, y) && mapped_row_fits(
                            rect,
                            final(self).spec_stride(),
                            data@.len() as int,
                            y,
                        ) {
                            final(self).spec_format().decoded(
                                final(self).spec_order(),
                                data@,
                                y * final(self).spec_stride() + x * 4,
                            )
                        } else {
                            old(self).pixel(x, y)
                        }
                    &&& match mapped_failure(
                        rect,
                        final(self).spec_stride(),
                        data@.len() as int,
                        0,
                    ) {
                        None => result == Ok::<FrameRect, Failure>(rect),
                        Some(message) => result matches Err(failure) && failure@ == seq![message],
                    }
                },
            },
    {
        let rect = match validate_rect(
            self.width,
            self.height,
            update.x,
            update.y,
            update.w,
            update.h,
        ) {
            Ok(rect) => rect,
            Err(failure) => return Err(failure),
        };
        if !self.mapped {
            return Err(
                Failure::of("received a shared-memory update without a shared-memory scanout"),
            );
        }
        let blitted = blit_mapped(
            self.format,
            self.order,
            rect,
            self.source_stride,
            data,
            &mut self.rgba,
            self.width as usize,
            Ghost(self.height as int),
        );
        match blitted {
            Ok(_) => Ok(rect),
            Err(failure) => Err(failure),
        }
    }

    /// The whole frame.
    pub fn snapshot(&self) -> (snapshot: FrameSnapshot)
        requires
            self.wf(),
        ensures
            snapshot.width == self.spec_width(),
            snapshot.height == self.spec_height(),
            snapshot.stride == snapshot.width * 4,
            snapshot.data.len() == snapshot.stride * snapshot.height,
            forall|x: int, y: int|
                self.holds(x, y) ==> #[trigger] snapshot.pixel(x, y) == self.pixel(x, y),
    {
        let snapshot = FrameSnapshot {
            width: self.width,
            height: self.height,
            stride: self.width as usize * RGBA_BYTES_PER_PIXEL,
            data: self.rgba.clone(),
        };
        proof {
            assert(self.width * self.height * 4 == (self.width * 4) * self.height)
                by (nonlinear_arith);
            assert(snapshot.data@ =~= self.rgba@);
            assert forall|x: int, y: int| self.holds(x, y) implies #[trigger] snapshot.pixel(x, y)
                == self.pixel(x, y) by {
                assert(y * (self.width * 4) + x * 4 == (y * self.width + x) * 4)
                    by (nonlinear_arith);
            }
        }
        snapshot
    }

    /// A part of the frame, with the place where it belongs.
    pub fn patch(&self, rect: FrameRect) -> (patch: FramePatch)
        requires
            self.wf(),
            rect.x + rect.width <= self.spec_width(),
            rect.y + rect.height <= self.spec_height(),
        ensures
            patch_shows(patch, *self, rect),
            patch.stride == rect.width * 4,
            patch.data.len() == patch.stride * patch.height,
    {
        let stride: usize = rect.width * RGBA_BYTES_PER_PIXEL;
        let frame_stride: usize = self.width as usize * RGBA_BYTES_PER_PIXEL;
        let mut data: Vec<u8> = Vec::new();
        assert(0 * stride == 0) by (nonlinear_arith);
        for row in 0..rect.height
            invariant
                self.wf(),
                rect.x + rect.width <= self.width,
                rect.y + rect.height <= self.height,
                stride == rect.width * 4,
                frame_stride == self.width * 4,
                data.len() == row * stride,
                forall|x: int, y: int|
                    0 <= x < rect.width && 0 <= y < row ==> #[trigger] rgba_at(
                        data@,
                        y * stride + x * 4,
                    ) == self.pixel(rect.x + x, rect.y + y),
        {
            let ghost y = rect.y + row;
            proof {
                assert(y * self.width + self.width <= self.width * self.height)
                    by (nonlinear_arith)
                    requires
                        0 <= y < self.height,
                ;
                assert(y * (self.width * 4) == (y * self.width) * 4) by (nonlinear_arith);
                assert(0 <= y * self.width) by (nonlinear_arith)
                    requires
                        0 <= y,
                ;
            }
            let start: usize = (rect.y + row) * frame_stride + rect.x * RGBA_BYTES_PER_PIXEL;
            let ghost before = data@;
            copy_range(&self.rgba, start, stride, &mut data);
            proof {
                assert((row + 1) * stride == row * stride + stride) by (nonlinear_arith);
                assert forall|px: int, py: int|
                    0 <= px < rect.width && 0 <= py < row + 1 implies #[trigger] rgba_at(
                    data@,
                    py * stride + px * 4,
                ) == self.pixel(rect.x + px, rect.y + py) by {
                    assert(0 <= py * stride) by (nonlinear_arith)
                        requires
                            0 <= py,
                            0 <= stride,
                    ;
                    if py < row {
                        assert(py * stride + stride <= row * stride) by (nonlinear_arith)
                            requires
                                py < row,
                                0 <= stride,
                        ;
                        assert(rgba_at(before, py * stride + px * 4) == self.pixel(
                            rect.x + px,
                            rect.y + py,
                        ));
                    } else {
                        assert(start + px * 4 == pixel_offset(
                            self.width as int,
                            rect.x + px,
                            rect.y + py,
                        ));
                    }
                }
            }
        }
        assert(rect.height * stride == stride * rect.height) by (nonlinear_arith);
        FramePatch {
            x: rect.x as u32,
            y: rect.y as u32,
            width: rect.width as u32,
            height: rect.height as u32,
            stride,
            data,
        }
    }
}

/// Appends `len` bytes of `source` from `start` on.
fn copy_range(source: &Vec<u8>, start: usize, len: usize, target: &mut Vec<u8>)
    requires
        start + len <= source.len(),
    ensures
        final(target)@ == old(target)@ + source@.subrange(start as int, start + len),
{
    let ghost before = target@;
    for i in 0..len
        invariant
            start + len <= source.len(),
            target@ == before + source@.subrange(start as int, start + i),
    {
        target.push(source[start + i]);
        assert(target@ =~= before + source@.subrange(start as int, start + i + 1));
    }
}

/// Where nothing goes wrong, shared memory covers every row of a rectangle.
pub proof fn mapped_success(rect: FrameRect, stride: int, available: int, row: int)
    requires
        0 <= row,
        mapped_failure(rect, stride, available, row) is None,
    ensures
        forall|y: int|
            rect.y + row <= y < rect.y + rect.height ==> #[trigger] mapped_row_fits(
                rect,
                stride,
                available,
                y,
            ),
    decreases rect.height - row,
{
    if row < rect.height {
        mapped_success(rect, stride, available, row + 1);
    }
}

fn rgba_size(width: usize, height: usize) -> (size: Option<usize>)
    ensures
        match size {
            Some(bytes) => bytes == width * height * 4,
            None => width * height * 4 > usize::MAX,
        },
{
    match width.checked_mul(height) {
        Some(pixels) => pixels.checked_mul(RGBA_BYTES_PER_PIXEL),
        None => None,
    }
}

/// Where nothing goes wrong, a payload covers every row of its rectangle.
pub proof fn linear_success(rect: FrameRect, stride: int, available: int, row: int)
    requires
        0 <= row,
        linear_failure(rect, stride, available, row) is None,
    ensures
        forall|y: int|
            rect.y + row <= y < rect.y + rect.height ==> #[trigger] linear_row_fits(
                rect,
                stride,
                available,
                y,
            ),
    decreases rect.height - row,
{
    if row < rect.height {
        linear_success(rect, stride, available, row + 1);
    }
}


/// The patch holds the pixels of the frame at its place.
pub open spec fn patch_shows(patch: FramePatch, frame: Framebuffer, rect: FrameRect) -> bool {
    &&& patch.x == rect.x
    &&& patch.y == rect.y
    &&& patch.width == rect.width
    &&& patch.height == rect.height
    &&& forall|x: int, y: int|
        0 <= x < rect.width && 0 <= y < rect.height ==> #[trigger] patch.pixel(x, y)
            == frame.pixel(rect.x + x, rect.y + y)
}

/// A place of an earlier snapshot once a patch is laid over it.
pub open spec fn patched_pixel(base: FrameSnapshot, patch: FramePatch, x: int, y: int) -> Rgba {
    if patch.x <= x < patch.x + patch.width && patch.y <= y < patch.y + patch.height {
        patch.pixel(x - patch.x, y - patch.y)
    } else {
        base.pixel(x, y)
    }
}

/// Laying the patch for an update's rectangle over the snapshot from before the update gives the
/// frame after the update: the patch is all that the window needs.
pub proof fn patch_brings_the_snapshot_up_to_date(
    before: Framebuffer,
    after: Framebuffer,
    snapshot: FrameSnapshot,
    rect: FrameRect,
    patch: FramePatch,
)
    requires
        after.same_shape(&before),
        forall|x: int, y: int|
            before.holds(x, y) ==> #[trigger] snapshot.pixel(x, y) == before.pixel(x, y),
        forall|x: int, y: int|
            after.holds(x, y) && !rect.has(x, y) ==> #[trigger] after.pixel(x, y) == before.pixel(
                x,
                y,
            ),
        patch_shows(patch, after, rect),
    ensures
        forall|x: int, y: int|
            after.holds(x, y) ==> #[trigger] patched_pixel(snapshot, patch, x, y) == after.pixel(
                x,
                y,
            ),
{
    assert forall|x: int, y: int| after.holds(x, y) implies #[trigger] patched_pixel(
        snapshot,
        patch,
        x,
        y,
    ) == after.pixel(x, y) by {
        if rect.has(x, y) {
            assert(patch.pixel(x - rect.x, y - rect.y) == after.pixel(x, y));
        } else {
            assert(snapshot.pixel(x, y) == before.pixel(x, y));
            assert(after.pixel(x, y) == before.pixel(x, y));
        }
    }
}

/// A frame whose stride covers its width, in a supported format and with as many bytes as stride
/// and height ask for, is shown unless its RGBA form does not fit in memory.
pub proof fn complete_scanouts_are_shown(scanout: Scanout)
    requires
        supported(scanout.format),
        scanout.stride >= scanout.width * 4,
        scanout.data.len() >= scanout.height * scanout.stride,
        scanout.width * scanout.height * 4 <= usize::MAX,
        scanout.width * 4 <= usize::MAX,
        scanout.height * scanout.stride <= usize::MAX,
    ensures
        scanout.failure() is None,
{
    let rect = whole(scanout.width, scanout.height);
    complete_rows_fit(rect, scanout.stride as int, scanout.data.len() as int, 0);
}

proof fn complete_rows_fit(rect: FrameRect, stride: int, available: int, row: int)
    requires
        0 <= row,
        stride >= rect.width * 4,
        rect.height * stride <= available <= usize::MAX,
    ensures
        linear_failure(rect, stride, available, row) is None,
    decreases rect.height - row,
{
    if row < rect.height {
        later_rows_start_later(stride, row + 1, rect.height as int);
        assert((row + 1) * stride == row * stride + stride) by (nonlinear_arith);
        complete_rows_fit(rect, stride, available, row + 1);
    }
}

/// A payload of rows in order covers its rectangle exactly where it covers the last row.
pub proof fn last_row_decides(rect: FrameRect, stride: int, available: int, row: int)
    requires
        0 <= row,
        0 <= stride,
        0 <= available <= usize::MAX,
    ensures
        linear_failure(rect, stride, available, row) is None <==> row >= rect.height || (rect.height
            - 1) * stride + rect.width * 4 <= available,
    decreases rect.height - row,
{
    if row < rect.height {
        last_row_decides(rect, stride, available, row + 1);
        later_rows_start_later(stride, row, rect.height - 1);
    }
}

/// Shared memory covers a rectangle exactly where it covers the last row.
pub proof fn last_mapped_row_decides(rect: FrameRect, stride: int, available: int, row: int)
    requires
        0 <= row,
        0 <= stride,
        0 <= available <= usize::MAX,
    ensures
        mapped_failure(rect, stride, available, row) is None <==> row >= rect.height || (rect.y
            + rect.height - 1) * stride + rect.x * 4 + rect.width * 4 <= available,
    decreases rect.height - row,
{
    if row < rect.height {
        last_mapped_row_decides(rect, stride, available, row + 1);
        later_rows_start_later(stride, rect.y + row, rect.y + rect.height - 1);
    }
}

/// A rectangle is taken exactly where it lies in the frame, and as it is.
pub proof fn rectangles_in_the_frame_are_taken(
    frame_width: u32,
    frame_height: u32,
    x: i32,
    y: i32,
    width: i32,
    height: i32,
)
    ensures
        rect_in_frame(frame_width, frame_height, x, y, width, height) is Ok <==> {
            &&& 0 <= x && 0 <= width && x + width <= frame_width
            &&& 0 <= y && 0 <= height && y + height <= frame_height
        },
        rect_in_frame(frame_width, frame_height, x, y, width, height) matches Ok(rect) ==> {
            &&& (rect.x, rect.y) == (x as usize, y as usize)
            &&& (rect.width, rect.height) == (width as usize, height as usize)
        },
{
}

/// An update that the guest sends is taken exactly where it is in the frame's format, its rectangle
/// lies in the frame and its payload covers its rows. The answer is then that very rectangle, its
/// pixels are those of the payload, and no other pixel changes, whether it is taken or not.
pub proof fn updates_in_the_frame_are_taken(
    frame: &mut Framebuffer,
    update: Update,
    result: Result<FrameRect, Failure>,
)
    requires
        old(frame).wf(),
        call_ensures(Framebuffer::apply_update, (frame, update), result),
    ensures
        result is Ok <==> {
            &&& update.format == old(frame).spec_format().code()
            &&& 0 <= update.x && 0 <= update.w && update.x + update.w <= old(frame).spec_width()
            &&& 0 <= update.y && 0 <= update.h && update.y + update.h <= old(frame).spec_height()
            &&& update.h == 0 || (update.h - 1) * update.stride + update.w * 4
                <= update.data@.len()
        },
        result matches Ok(rect) ==> {
            &&& rect.x == update.x && rect.y == update.y
            &&& rect.width == update.w && rect.height == update.h
            &&& forall|column: int, row: int|
                0 <= column < update.w && 0 <= row < update.h ==> #[trigger] final(frame).pixel(
                    update.x + column,
                    update.y + row,
                ) == old(frame).spec_format().decoded(
                    old(frame).spec_order(),
                    update.data@,
                    row * update.stride + column * 4,
                )
        },
        forall|x: int, y: int|
            old(frame).holds(x, y) && !(update.x <= x < update.x + update.w && update.y <= y
                < update.y + update.h) ==> #[trigger] final(frame).pixel(x, y) == old(frame).pixel(
                x,
                y,
            ),
        update.format != old(frame).spec_format().code() || update.x < 0 || update.y < 0 || update.w
            < 0 || update.h < 0 || update.x + update.w > old(frame).spec_width() || update.y
            + update.h > old(frame).spec_height() ==> *final(frame) == *old(frame),
        (final(frame).spec_width(), final(frame).spec_height()) == (
            old(frame).spec_width(),
            old(frame).spec_height(),
        ),
{
    let stride = update.stride as int;
    let available = update.data@.len() as int;
    assert(available == update.data.len());
    let format = old(frame).spec_format();
    if supported(update.format) {
        assert(format_of(update.format).code() == update.format);
        if format.code() == update.format {
            codes_are_distinct(format, format_of(update.format));
        }
    } else {
        assert(format.code() != update.format);
    }
    if old(frame).update_rect(update) is Ok {
        let rect = old(frame).update_rect(update)->Ok_0;
        last_row_decides(rect, stride, available, 0);
        if result is Ok {
            linear_success(rect, stride, available, 0);
            assert forall|column: int, row: int|
                0 <= column < update.w && 0 <= row < update.h implies #[trigger] final(frame).pixel(
                update.x + column,
                update.y + row,
            ) == format.decoded(
                old(frame).spec_order(),
                update.data@,
                row * update.stride + column * 4,
            ) by {
                assert(rect.has(update.x + column, update.y + row));
                assert(linear_row_fits(rect, stride, available, update.y + row));
                assert(final(frame).holds(update.x + column, update.y + row));
            }
        }
        assert forall|x: int, y: int|
            old(frame).holds(x, y) && !(update.x <= x < update.x + update.w && update.y <= y
                < update.y + update.h) implies #[trigger] final(frame).pixel(x, y) == old(
            frame,
        ).pixel(x, y) by {
            assert(final(frame).holds(x, y));
            assert(!rect.has(x, y));
        }
    }
}

/// An update of shared memory is taken exactly where the frame is shared, the rectangle lies in the
/// frame and the memory covers its rows. The answer is then that very rectangle, its pixels are
/// those of the memory at the same place, and no other pixel changes, whether it is taken or not.
pub proof fn shared_updates_in_the_frame_are_taken(
    frame: &mut Framebuffer,
    update: UpdateMap,
    data: &[u8],
    result: Result<FrameRect, Failure>,
)
    requires
        old(frame).wf(),
        call_ensures(Framebuffer::refresh_mapped_region, (frame, update, data), result),
    ensures
        result is Ok <==> {
            &&& old(frame).spec_mapped()
            &&& 0 <= update.x && 0 <= update.w && update.x + update.w <= old(frame).spec_width()
            &&& 0 <= update.y && 0 <= update.h && update.y + update.h <= old(frame).spec_height()
            &&& update.h == 0 || (update.y + update.h - 1) * old(frame).spec_stride() + (update.x
                + update.w) * 4 <= data@.len()
        },
        result matches Ok(rect) ==> {
            &&& rect.x == update.x && rect.y == update.y
            &&& rect.width == update.w && rect.height == update.h
            &&& forall|x: int, y: int|
                update.x <= x < update.x + update.w && update.y <= y < update.y + update.h
                    ==> #[trigger] final(frame).pixel(x, y) == old(frame).spec_format().decoded(
                    old(frame).spec_order(),
                    data@,
                    y * old(frame).spec_stride() + x * 4,
                )
        },
        forall|x: int, y: int|
            old(frame).holds(x, y) && !(update.x <= x < update.x + update.w && update.y <= y
                < update.y + update.h) ==> #[trigger] final(frame).pixel(x, y) == old(frame).pixel(
                x,
                y,
            ),
        !old(frame).spec_mapped() || update.x < 0 || update.y < 0 || update.w < 0 || update.h < 0
            || update.x + update.w > old(frame).spec_width() || update.y + update.h > old(
            frame,
        ).spec_height() ==> *final(frame) == *old(frame),
        (final(frame).spec_width(), final(frame).spec_height()) == (
            old(frame).spec_width(),
            old(frame).spec_height(),
        ),
{
    let stride = old(frame).spec_stride();
    let available = data@.len() as int;
    assert(available == data.len());
    let taken = rect_in_frame(
        old(frame).spec_width(),
        old(frame).spec_height(),
        update.x,
        update.y,
        update.w,
        update.h,
    );
    if taken is Ok && old(frame).spec_mapped() {
        let rect = taken->Ok_0;
        last_mapped_row_decides(rect, stride, available, 0);
        if result is Ok {
            mapped_success(rect, stride, available, 0);
            assert forall|x: int, y: int|
                update.x <= x < update.x + update.w && update.y <= y < update.y
                    + update.h implies #[trigger] final(frame).pixel(x, y) == old(
                frame,
            ).spec_format().decoded(old(frame).spec_order(), data@, y * stride + x * 4) by {
                assert(rect.has(x, y));
                assert(mapped_row_fits(rect, stride, available, y));
                assert(final(frame).holds(x, y));
            }
        }
        assert forall|x: int, y: int|
            old(frame).holds(x, y) && !(update.x <= x < update.x + update.w && update.y <= y
                < update.y + update.h) implies #[trigger] final(frame).pixel(x, y) == old(
            frame,
        ).pixel(x, y) by {
            assert(final(frame).holds(x, y));
            assert(!rect.has(x, y));
        }
    }
}

/// A frame that the guest sends is shown exactly where its format is supported, its bytes cover
/// its rows and its size fits in memory. Every pixel is the one at its place of the payload.
pub proof fn complete_frames_are_shown(
    scanout: Scanout,
    order: ByteOrder,
    result: Result<Framebuffer, Failure>,
)
    requires
        call_ensures(Framebuffer::from_scanout, (scanout, order), result),
    ensures
        result is Ok <==> {
            &&& exists|format: PixelFormat| format.code() == scanout.format
            &&& scanout.height * scanout.stride <= scanout.data@.len()
            &&& scanout.width * scanout.height * 4 <= usize::MAX
            &&& scanout.width * 4 <= usize::MAX
            &&& scanout.height == 0 || (scanout.height - 1) * scanout.stride + scanout.width * 4
                <= scanout.data@.len()
        },
        result matches Ok(frame) ==> {
            &&& (frame.spec_width(), frame.spec_height()) == (scanout.width, scanout.height)
            &&& frame.spec_format().code() == scanout.format
            &&& frame.spec_order() == order
            &&& frame.spec_stride() == scanout.stride
            &&& !frame.spec_mapped()
            &&& forall|x: int, y: int|
                0 <= x < scanout.width && 0 <= y < scanout.height ==> #[trigger] frame.pixel(x, y)
                    == frame.spec_format().decoded(
                    order,
                    scanout.data@,
                    y * scanout.stride + x * 4,
                )
        },
{
    let available = scanout.data@.len() as int;
    assert(available == scanout.data.len());
    last_row_decides(
        whole(scanout.width, scanout.height),
        scanout.stride as int,
        available,
        0,
    );
    assert(supported(scanout.format) ==> format_of(scanout.format).code() == scanout.format);
    if result is Ok {
        let frame = result->Ok_0;
        assert forall|x: int, y: int|
            0 <= x < scanout.width && 0 <= y < scanout.height implies #[trigger] frame.pixel(x, y)
            == frame.spec_format().decoded(
            order,
            scanout.data@,
            y * scanout.stride + x * 4,
        ) by {
            assert(frame.holds(x, y));
        }
    }
}

/// A frame in shared memory is shown exactly where its format is supported, the memory could be
/// mapped and covers its rows, and its size fits in memory. Every pixel is the one at its place.
pub proof fn complete_shared_frames_are_shown(
    scanout: ScanoutMap,
    mapping: Result<&[u8], Failure>,
    order: ByteOrder,
    result: Result<Framebuffer, Failure>,
)
    requires
        call_ensures(Framebuffer::from_map, (scanout, mapping, order), result),
    ensures
        result is Ok <==> {
            &&& exists|format: PixelFormat| format.code() == scanout.format
            &&& mapping is Ok
            &&& scanout.height * scanout.stride <= mapping->Ok_0@.len()
            &&& scanout.width * scanout.height * 4 <= usize::MAX
            &&& scanout.width * 4 <= usize::MAX
            &&& scanout.height == 0 || (scanout.height - 1) * scanout.stride + scanout.width * 4
                <= mapping->Ok_0@.len()
        },
        result matches Ok(frame) ==> {
            &&& (frame.spec_width(), frame.spec_height()) == (scanout.width, scanout.height)
            &&& frame.spec_format().code() == scanout.format
            &&& frame.spec_order() == order
            &&& frame.spec_stride() == scanout.stride
            &&& frame.spec_mapped()
            &&& forall|x: int, y: int|
                0 <= x < scanout.width && 0 <= y < scanout.height ==> #[trigger] frame.pixel(x, y)
                    == frame.spec_format().decoded(
                    order,
                    mapping->Ok_0@,
                    y * scanout.stride + x * 4,
                )
        },
{
    assert(supported(scanout.format) ==> format_of(scanout.format).code() == scanout.format);
    if mapping is Ok {
        let available = mapping->Ok_0@.len() as int;
        assert(available == mapping->Ok_0.len());
        last_mapped_row_decides(
            whole(scanout.width, scanout.height),
            scanout.stride as int,
            available,
            0,
        );
    }
    if result is Ok {
        let frame = result->Ok_0;
        assert forall|x: int, y: int|
            0 <= x < scanout.width && 0 <= y < scanout.height implies #[trigger] frame.pixel(x, y)
            == frame.spec_format().decoded(
            order,
            mapping->Ok_0@,
            y * scanout.stride + x * 4,
        ) by {
            assert(frame.holds(x, y));
        }
    }
}

/// A snapshot holds the frame row by row, four bytes a pixel: red, green, blue and alpha. A patch
/// holds its rectangle in the same way.
pub proof fn pictures_are_rows_of_rgba(
    frame: Framebuffer,
    snapshot: FrameSnapshot,
    rect: FrameRect,
    patch: FramePatch,
)
    requires
        frame.wf(),
        rect.x + rect.width <= frame.spec_width(),
        rect.y + rect.height <= frame.spec_height(),
        call_ensures(Framebuffer::snapshot, (&frame,), snapshot),
        call_ensures(Framebuffer::patch, (&frame, rect), patch),
    ensures
        (snapshot.width, snapshot.height) == (frame.spec_width(), frame.spec_height()),
        snapshot.stride == snapshot.width * 4,
        snapshot.data@.len() == snapshot.width * 4 * snapshot.height,
        forall|x: int, y: int|
            0 <= x < snapshot.width && 0 <= y < snapshot.height ==> {
                let at = y * snapshot.stride + x * 4;
                let pixel = #[trigger] frame.pixel(x, y);
                &&& snapshot.data@[at] == pixel.red
                &&& snapshot.data@[at + 1] == pixel.green
                &&& snapshot.data@[at + 2] == pixel.blue
                &&& snapshot.data@[at + 3] == pixel.alpha
            },
        patch.x == rect.x && patch.y == rect.y,
        patch.width == rect.width && patch.height == rect.height,
        patch.stride == rect.width * 4,
        patch.data@.len() == rect.width * 4 * rect.height,
        forall|column: int, row: int|
            0 <= column < patch.width && 0 <= row < patch.height ==> {
                let at = row * patch.stride + column * 4;
                let pixel = #[trigger] frame.pixel(rect.x + column, rect.y + row);
                &&& patch.data@[at] == pixel.red
                &&& patch.data@[at + 1] == pixel.green
                &&& patch.data@[at + 2] == pixel.blue
                &&& patch.data@[at + 3] == pixel.alpha
            },
{
    assert forall|x: int, y: int|
        0 <= x < snapshot.width && 0 <= y < snapshot.height implies {
        let at = y * snapshot.stride + x * 4;
        let pixel = #[trigger] frame.pixel(x, y);
        &&& snapshot.data@[at] == pixel.red
        &&& snapshot.data@[at + 1] == pixel.green
        &&& snapshot.data@[at + 2] == pixel.blue
        &&& snapshot.data@[at + 3] == pixel.alpha
    } by {
        assert(frame.holds(x, y));
        assert(snapshot.pixel(x, y) == frame.pixel(x, y));
    }
    assert forall|column: int, row: int|
        0 <= column < patch.width && 0 <= row < patch.height implies {
        let at = row * patch.stride + column * 4;
        let pixel = #[trigger] frame.pixel(rect.x + column, rect.y + row);
        &&& patch.data@[at] == pixel.red
        &&& patch.data@[at + 1] == pixel.green
        &&& patch.data@[at + 2] == pixel.blue
        &&& patch.data@[at + 3] == pixel.alpha
    } by {
        assert(patch.pixel(column, row) == frame.pixel(rect.x + column, rect.y + row));
    }
}

/// The distance of two rows is never negative.
pub proof fn frame_strides_are_not_negative(frame: Framebuffer)
    ensures
        frame.spec_stride() >= 0,
{
}

}
