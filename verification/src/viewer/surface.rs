//! The drawing surface that software-rendered frames are painted on.

use vstd::prelude::*;

use super::framebuffer::FramePatch;
use super::framebuffer::FrameSnapshot;
use super::pixel::rgba_at;
use super::pixel::ByteOrder;
use super::pixel::PixelFormat;
use super::pixel::Rgba;
use super::pixel::RGBA_BYTES_PER_PIXEL;
use crate::error::out_of_range;
use crate::error::Failure;
use crate::error::OUT_OF_RANGE;

verus! {

/// A colour channel scaled by alpha, rounded to the nearest value.
pub open spec fn premultiplied_channel(channel: u8, alpha: u8) -> int {
    (channel * alpha + 127) / 255
}

/// A pixel with its colour channels scaled by alpha.
pub open spec fn premultiplied(pixel: Rgba) -> Rgba {
    Rgba {
        red: premultiplied_channel(pixel.red, pixel.alpha) as u8,
        green: premultiplied_channel(pixel.green, pixel.alpha) as u8,
        blue: premultiplied_channel(pixel.blue, pixel.alpha) as u8,
        alpha: pixel.alpha,
    }
}

/// Byte `index` of the native word of a surface that shows an RGBA pixel.
pub open spec fn argb32_byte(order: ByteOrder, pixel: Rgba, index: int) -> u8 {
    let scaled = premultiplied(pixel);
    let rank = match order {
        ByteOrder::Little => 3 - index,
        ByteOrder::Big => index,
    };
    if rank == 0 {
        scaled.alpha
    } else if rank == 1 {
        scaled.red
    } else if rank == 2 {
        scaled.green
    } else {
        scaled.blue
    }
}

/// The surface with `count` pixels of `source`, from `start` on, painted from byte `at` on.
pub open spec fn painted_row(
    order: ByteOrder,
    surface: Seq<u8>,
    at: int,
    source: Seq<u8>,
    start: int,
    count: int,
) -> Seq<u8> {
    Seq::new(
        surface.len(),
        |i: int|
            if at <= i < at + count * 4 {
                argb32_byte(order, rgba_at(source, start + (i - at) / 4 * 4), (i - at) % 4)
            } else {
                surface[i]
            },
    )
}

/// A scaled channel is no larger than alpha.
pub proof fn premultiplied_channels_stay_below_alpha(channel: u8, alpha: u8)
    ensures
        0 <= premultiplied_channel(channel, alpha) <= alpha,
{
    assert(0 <= channel * alpha <= 255 * alpha) by (nonlinear_arith)
        requires
            0 <= channel <= 255,
            0 <= alpha,
    ;
}

/// Opaque pixels keep their colour.
pub proof fn opaque_pixels_are_unscaled(pixel: Rgba)
    requires
        pixel.alpha == 255,
    ensures
        premultiplied(pixel) == pixel,
{
}

/// A colour channel scaled by alpha, rounded to the nearest value.
pub fn premultiply(channel: u8, alpha: u8) -> (scaled: u8)
    ensures
        scaled == premultiplied_channel(channel, alpha),
{
    proof {
        premultiplied_channels_stay_below_alpha(channel, alpha);
        assert(0 <= channel * alpha <= 255 * 255) by (nonlinear_arith)
            requires
                0 <= channel <= 255,
                0 <= alpha <= 255,
        ;
    }
    ((channel as u16 * alpha as u16 + 127) / 255) as u8
}

/// Paints `count` pixels of `source`, from `start` on, from byte `at` of the surface on.
fn rgba_row_to_cairo_argb32(
    order: ByteOrder,
    source: &[u8],
    start: usize,
    surface: &mut [u8],
    at: usize,
    count: usize,
)
    requires
        start + count * 4 <= source@.len(),
        at + count * 4 <= old(surface)@.len(),
    ensures
        final(surface)@ == painted_row(
            order,
            old(surface)@,
            at as int,
            source@,
            start as int,
            count as int,
        ),
{
    let ghost before = surface@;
    for i in 0..count
        invariant
            start + count * 4 <= source@.len(),
            at + count * 4 <= surface@.len(),
            surface@ == painted_row(order, before, at as int, source@, start as int, i as int),
    {
        assert(source@.len() == source.len());
        assert(surface@.len() == surface.len());
        let from: usize = start + i * 4;
        let to: usize = at + i * 4;
        let alpha = source[from + 3];
        let red = premultiply(source[from], alpha);
        let green = premultiply(source[from + 1], alpha);
        let blue = premultiply(source[from + 2], alpha);
        let (b0, b1, b2, b3) = match order {
            ByteOrder::Little => (blue, green, red, alpha),
            ByteOrder::Big => (alpha, red, green, blue),
        };
        surface[to] = b0;
        surface[to + 1] = b1;
        surface[to + 2] = b2;
        surface[to + 3] = b3;
        assert(surface@ =~= painted_row(
            order,
            before,
            at as int,
            source@,
            start as int,
            i + 1,
        ));
    }
    assert(surface@ =~= painted_row(
        order,
        before,
        at as int,
        source@,
        start as int,
        count as int,
    ));
}


/// Where on a surface a patch goes, and how the patch and the surface are laid out.
#[derive(Copy, Clone, Debug, PartialEq, Eq, Structural)]
pub struct PatchLayout {
    pub surface_stride: usize,
    pub x: usize,
    pub y: usize,
    pub width: usize,
    pub height: usize,
    pub patch_stride: usize,
}

impl PatchLayout {
    /// The first byte of a row of the patch on the surface.
    pub open spec fn target(self, row: int) -> int {
        (self.y + row) * self.surface_stride + self.x * 4
    }

    /// What goes wrong with a row of the patch, if anything does.
    pub open spec fn row_failure(self, patch_len: int, surface_len: int, row: int) -> Option<
        Seq<char>,
    > {
        let start = row * self.patch_stride;
        let len = self.width * 4;
        if start > usize::MAX {
            Some("software patch source offset overflow"@)
        } else if start + len > usize::MAX {
            Some("software patch source range overflow"@)
        } else if start + len > patch_len {
            Some("software patch payload is too short for the advertised rectangle"@)
        } else if (self.y + row) * self.surface_stride > usize::MAX {
            Some("software patch destination row overflow"@)
        } else if self.x * 4 > usize::MAX {
            Some("software patch destination x overflow"@)
        } else if self.target(row) > usize::MAX {
            Some("software patch destination offset overflow"@)
        } else if self.target(row) + len > usize::MAX {
            Some("software patch destination range overflow"@)
        } else if self.target(row) + len > surface_len {
            Some("software patch rectangle falls outside the presenter surface"@)
        } else {
            None
        }
    }

    /// How many rows of the patch are painted, counted from `row` on: all, or those before the
    /// first with a failure.
    pub open spec fn rows_painted(self, patch_len: int, surface_len: int, row: int) -> int
        decreases self.height - row,
    {
        if row >= self.height || self.row_failure(patch_len, surface_len, row) is Some {
            row
        } else {
            self.rows_painted(patch_len, surface_len, row + 1)
        }
    }

    /// The surface with the first `rows` rows of the patch painted, one after the other.
    pub open spec fn painted(
        self,
        order: ByteOrder,
        surface: Seq<u8>,
        patch: Seq<u8>,
        rows: int,
    ) -> Seq<u8>
        decreases rows,
    {
        if rows <= 0 {
            surface
        } else {
            painted_row(
                order,
                self.painted(order, surface, patch, rows - 1),
                self.target(rows - 1),
                patch,
                (rows - 1) * self.patch_stride,
                self.width as int,
            )
        }
    }

    /// What goes wrong with the patch, if anything does.
    pub open spec fn failure(self, patch_len: int, surface_len: int) -> Option<Seq<char>> {
        let row = self.rows_painted(patch_len, surface_len, 0);
        if self.width * 4 > usize::MAX {
            Some("software patch row size overflow"@)
        } else if row < self.height {
            self.row_failure(patch_len, surface_len, row)
        } else {
            None
        }
    }
}

/// Where a row of a patch begins in the patch and on the surface, or what is wrong with it.
fn checked_patch_row(
    layout: PatchLayout,
    len: usize,
    patch_len: usize,
    surface_len: usize,
    row: usize,
) -> (result: Result<(usize, usize), Failure>)
    requires
        len == layout.width * 4,
        layout.y + row <= usize::MAX,
    ensures
        match result {
            Ok((start, target)) => {
                &&& layout.row_failure(patch_len as int, surface_len as int, row as int) is None
                &&& start == row * layout.patch_stride
                &&& target == layout.target(row as int)
            },
            Err(failure) => {
                let message = layout.row_failure(patch_len as int, surface_len as int, row as int);
                message is Some && failure@ == seq![message->0]
            },
        },
{
    let start: usize = match row.checked_mul(layout.patch_stride) {
        Some(start) => start,
        None => return Err(Failure::of("software patch source offset overflow")),
    };
    let end: usize = match start.checked_add(len) {
        Some(end) => end,
        None => return Err(Failure::of("software patch source range overflow")),
    };
    if end > patch_len {
        return Err(
            Failure::of("software patch payload is too short for the advertised rectangle"),
        );
    }
    let target_row: usize = match (layout.y + row).checked_mul(layout.surface_stride) {
        Some(target_row) => target_row,
        None => return Err(Failure::of("software patch destination row overflow")),
    };
    let column: usize = match layout.x.checked_mul(RGBA_BYTES_PER_PIXEL) {
        Some(column) => column,
        None => return Err(Failure::of("software patch destination x overflow")),
    };
    let target: usize = match target_row.checked_add(column) {
        Some(target) => target,
        None => return Err(Failure::of("software patch destination offset overflow")),
    };
    let target_end: usize = match target.checked_add(len) {
        Some(target_end) => target_end,
        None => return Err(Failure::of("software patch destination range overflow")),
    };
    if target_end > surface_len {
        return Err(Failure::of("software patch rectangle falls outside the presenter surface"));
    }
    Ok((start, target))
}

/// Paints an RGBA patch on a surface of premultiplied native words, row by row. Rows before one
/// that does not fit are painted all the same.
pub fn apply_rgba_patch_to_cairo_argb32(
    order: ByteOrder,
    surface: &mut [u8],
    layout: PatchLayout,
    patch: &[u8],
) -> (result: Result<(), Failure>)
    requires
        layout.y + layout.height <= usize::MAX + 1,
    ensures
        match layout.failure(patch@.len() as int, old(surface)@.len() as int) {
            None => result is Ok,
            Some(message) => result matches Err(failure) && failure@ == seq![message],
        },
        final(surface)@ == if layout.width * 4 > usize::MAX {
            old(surface)@
        } else {
            layout.painted(
                order,
                old(surface)@,
                patch@,
                layout.rows_painted(patch@.len() as int, old(surface)@.len() as int, 0),
            )
        },
{
    let len: usize = match layout.width.checked_mul(RGBA_BYTES_PER_PIXEL) {
        Some(len) => len,
        None => return Err(Failure::of("software patch row size overflow")),
    };
    let patch_len: usize = patch.len();
    let surface_len: usize = surface.len();
    let ghost before = surface@;
    for row in 0..layout.height
        invariant
            layout.y + layout.height <= usize::MAX + 1,
            before == old(surface)@,
            len == layout.width * 4,
            patch_len == patch@.len(),
            surface_len == before.len(),
            surface@.len() == before.len(),
            surface@ == layout.painted(order, before, patch@, row as int),
            layout.rows_painted(patch_len as int, surface_len as int, 0) == layout.rows_painted(
                patch_len as int,
                surface_len as int,
                row as int,
            ),
    {
        match checked_patch_row(layout, len, patch_len, surface_len, row) {
            Ok((start, target)) => {
                rgba_row_to_cairo_argb32(order, patch, start, surface, target, layout.width);
            },
            Err(failure) => {
                return Err(failure);
            },
        }
    }
    Ok(())
}

proof fn painted_keeps_length(
    layout: PatchLayout,
    order: ByteOrder,
    surface: Seq<u8>,
    patch: Seq<u8>,
    rows: int,
)
    ensures
        layout.painted(order, surface, patch, rows).len() == surface.len(),
    decreases rows,
{
    if rows > 0 {
        painted_keeps_length(layout, order, surface, patch, rows - 1);
    }
}

/// On a surface whose rows do not overlap, every place of a painted patch shows its pixel with the
/// colours scaled by alpha, and every byte outside the patch is unchanged.
pub proof fn painted_patch_shows_its_pixels(
    layout: PatchLayout,
    order: ByteOrder,
    surface: Seq<u8>,
    patch: Seq<u8>,
    rows: int,
)
    requires
        0 <= rows <= layout.height,
        (layout.x + layout.width) * 4 <= layout.surface_stride,
        forall|row: int|
            0 <= row < rows ==> (#[trigger] layout.target(row)) + layout.width * 4
                <= surface.len(),
    ensures
        forall|x: int, row: int|
            0 <= x < layout.width && 0 <= row < rows ==> #[trigger] PixelFormat::A8r8g8b8.decoded(
                order,
                layout.painted(order, surface, patch, rows),
                layout.target(row) + x * 4,
            ) == premultiplied(rgba_at(patch, row * layout.patch_stride + x * 4)),
        forall|i: int|
            0 <= i < surface.len() && (forall|row: int|
                0 <= row < rows ==> !((#[trigger] layout.target(row)) <= i < layout.target(row)
                    + layout.width * 4)) ==> #[trigger] layout.painted(
                order,
                surface,
                patch,
                rows,
            )[i] == surface[i],
    decreases rows,
{
    painted_keeps_length(layout, order, surface, patch, rows);
    if rows > 0 {
        painted_patch_shows_its_pixels(layout, order, surface, patch, rows - 1);
        painted_keeps_length(layout, order, surface, patch, rows - 1);
        let earlier = layout.painted(order, surface, patch, rows - 1);
        let now = layout.painted(order, surface, patch, rows);
        let last = layout.target(rows - 1);
        assert(0 <= (layout.y + rows - 1) * layout.surface_stride) by (nonlinear_arith)
            requires
                0 <= layout.y,
                0 <= rows - 1,
                0 <= layout.surface_stride,
        ;
        assert(last + layout.width * 4 <= surface.len());
        assert forall|x: int, row: int|
            0 <= x < layout.width && 0 <= row < rows implies #[trigger] PixelFormat::A8r8g8b8.decoded(
            order,
            now,
            layout.target(row) + x * 4,
        ) == premultiplied(rgba_at(patch, row * layout.patch_stride + x * 4)) by {
            let at = layout.target(row) + x * 4;
            assert(0 <= (layout.y + row) * layout.surface_stride) by (nonlinear_arith)
                requires
                    0 <= layout.y,
                    0 <= row,
                    0 <= layout.surface_stride,
            ;
            assert(layout.target(row) + layout.width * 4 <= surface.len());
            if row < rows - 1 {
                assert((layout.y + row) * layout.surface_stride + layout.surface_stride <= (layout.y
                    + rows - 1) * layout.surface_stride) by (nonlinear_arith)
                    requires
                        row < rows - 1,
                        0 <= layout.surface_stride,
                ;
                assert(PixelFormat::A8r8g8b8.decoded(order, earlier, at) == premultiplied(
                    rgba_at(patch, row * layout.patch_stride + x * 4),
                ));
                assert(now[at] == earlier[at]);
                assert(now[at + 1] == earlier[at + 1]);
                assert(now[at + 2] == earlier[at + 2]);
                assert(now[at + 3] == earlier[at + 3]);
            } else {
                let start = (rows - 1) * layout.patch_stride;
                let pixel = rgba_at(patch, start + x * 4);
                assert((at - last) / 4 * 4 == x * 4);
                assert((at + 1 - last) / 4 * 4 == x * 4);
                assert((at + 2 - last) / 4 * 4 == x * 4);
                assert((at + 3 - last) / 4 * 4 == x * 4);
                assert(now[at] == argb32_byte(order, pixel, 0));
                assert(now[at + 1] == argb32_byte(order, pixel, 1));
                assert(now[at + 2] == argb32_byte(order, pixel, 2));
                assert(now[at + 3] == argb32_byte(order, pixel, 3));
            }
        }
        assert forall|i: int|
            0 <= i < surface.len() && (forall|row: int|
                0 <= row < rows ==> !((#[trigger] layout.target(row)) <= i < layout.target(row)
                    + layout.width * 4)) implies #[trigger] now[i] == surface[i] by {
            assert(!(layout.target(rows - 1) <= i < layout.target(rows - 1) + layout.width * 4));
            assert(earlier[i] == surface[i]);
        }
    }
}


/// A surface to allocate.
#[derive(Copy, Clone, Debug, PartialEq, Eq, Structural)]
pub struct SurfacePlan {
    pub width: i32,
    pub height: i32,
    pub stride: i32,
    pub bytes: usize,
}

/// A part of the surface that has changed.
#[derive(Copy, Clone, Debug, PartialEq, Eq, Structural)]
pub struct DirtyRect {
    pub x: i32,
    pub y: i32,
    pub width: i32,
    pub height: i32,
}

/// What is known of the surface: its size, and whether it has been allocated.
#[derive(Debug)]
pub struct SoftwarePaintableState {
    allocated: bool,
    width: u32,
    height: u32,
}

impl SoftwarePaintableState {
    /// An allocated surface has a size that the drawing library can express.
    pub closed spec fn wf(&self) -> bool {
        self.allocated ==> self.width <= i32::MAX && self.height <= i32::MAX
    }

    /// The surface has been allocated.
    pub closed spec fn spec_allocated(&self) -> bool {
        self.allocated
    }

    /// The width in pixels.
    pub closed spec fn spec_width(&self) -> u32 {
        self.width
    }

    /// The height in pixels.
    pub closed spec fn spec_height(&self) -> u32 {
        self.height
    }

    /// Whether a frame has another size than the surface.
    pub open spec fn differs(&self, snapshot: &FrameSnapshot) -> bool {
        self.spec_width() != snapshot.width || self.spec_height() != snapshot.height
    }

    /// No surface yet.
    pub fn new() -> (state: SoftwarePaintableState)
        ensures
            state.wf(),
            !state.spec_allocated(),
            state.spec_width() == 0,
            state.spec_height() == 0,
    {
        SoftwarePaintableState { allocated: false, width: 0, height: 0 }
    }

    /// Whether a frame has another size than the surface.
    pub fn size_changed(&self, snapshot: &FrameSnapshot) -> (changed: bool)
        ensures
            changed == self.differs(snapshot),
    {
        self.width != snapshot.width || self.height != snapshot.height
    }

    /// The surface that a frame needs, if it cannot go on the present one. `stride` is the row
    /// length that the drawing library asks for at the frame's width, or why it refuses it.
    pub fn plan_surface(&self, snapshot: &FrameSnapshot, stride: Result<i32, Failure>) -> (result:
        Result<Option<SurfacePlan>, Failure>)
        requires
            stride matches Ok(bytes) ==> bytes * snapshot.height <= usize::MAX,
        ensures
            if self.spec_allocated() && !self.differs(snapshot) {
                result == Ok::<Option<SurfacePlan>, Failure>(None)
            } else if snapshot.width > i32::MAX {
                result matches Err(failure) && failure@ == seq![
                    "invalid framebuffer width"@,
                    OUT_OF_RANGE@,
                ]
            } else if snapshot.height > i32::MAX {
                result matches Err(failure) && failure@ == seq![
                    "invalid framebuffer height"@,
                    OUT_OF_RANGE@,
                ]
            } else {
                match stride {
                    Err(cause) => result matches Err(failure) && failure@ == seq![
                        "invalid cairo stride for the framebuffer"@,
                    ] + cause@,
                    Ok(bytes) => result == Ok::<Option<SurfacePlan>, Failure>(
                        Some(
                            (SurfacePlan {
                                width: snapshot.width as i32,
                                height: snapshot.height as i32,
                                stride: bytes,
                                bytes: if bytes < 0 {
                                    0
                                } else {
                                    (bytes * snapshot.height) as usize
                                },
                            }),
                        ),
                    ),
                }
            },
    {
        if self.allocated && !self.size_changed(snapshot) {
            return Ok(None);
        }
        if snapshot.width > 0x7fff_ffff {
            return Err(out_of_range("invalid framebuffer width".to_owned()));
        }
        if snapshot.height > 0x7fff_ffff {
            return Err(out_of_range("invalid framebuffer height".to_owned()));
        }
        match stride {
            Err(cause) => Err(
                cause.context("invalid cairo stride for the framebuffer".to_owned()),
            ),
            Ok(stride) => {
                let row: usize = if stride < 0 {
                    0
                } else {
                    stride as usize
                };
                assert(0 * snapshot.height == 0) by (nonlinear_arith);
                Ok(
                    Some(
                        SurfacePlan {
                            width: snapshot.width as i32,
                            height: snapshot.height as i32,
                            stride,
                            bytes: row * snapshot.height as usize,
                        },
                    ),
                )
            },
        }
    }

    /// Takes over a surface that was allocated for a frame, or reports why it was not.
    pub fn install_surface(
        &mut self,
        snapshot: &FrameSnapshot,
        allocated: Result<(), Failure>,
    ) -> (result: Result<(), Failure>)
        requires
            old(self).wf(),
            snapshot.width <= i32::MAX,
            snapshot.height <= i32::MAX,
        ensures
            final(self).wf(),
            match allocated {
                Ok(_) => {
                    &&& result is Ok
                    &&& final(self).spec_allocated()
                    &&& !final(self).differs(snapshot)
                },
                Err(cause) => {
                    &&& result matches Err(failure)
                    &&& failure@ == seq!["failed to allocate the software framebuffer surface"@]
                        + cause@
                    &&& *final(self) == *old(self)
                },
            },
    {
        match allocated {
            Ok(_) => {
                self.allocated = true;
                self.width = snapshot.width;
                self.height = snapshot.height;
                Ok(())
            },
            Err(cause) => Err(
                cause.context("failed to allocate the software framebuffer surface".to_owned()),
            ),
        }
    }

    /// Why a patch cannot go on the surface, if it cannot.
    pub open spec fn patch_failure(&self, patch: &FramePatch) -> Option<Seq<char>> {
        if !self.spec_allocated() {
            Some("software presenter patch arrived before the initial frame"@)
        } else if patch.x as int + patch.width as int > usize::MAX {
            Some("patch width overflow"@)
        } else if patch.x + patch.width > self.spec_width() {
            Some("software framebuffer patch falls outside the presenter bounds"@)
        } else if patch.y as int + patch.height as int > usize::MAX {
            Some("patch height overflow"@)
        } else if patch.y + patch.height > self.spec_height() {
            Some("software framebuffer patch falls outside the presenter bounds"@)
        } else {
            None
        }
    }

    /// Where a patch goes on the surface, whose rows are `stride` bytes long.
    pub open spec fn patch_layout(patch: &FramePatch, stride: int) -> PatchLayout {
        PatchLayout {
            surface_stride: stride as usize,
            x: patch.x as usize,
            y: patch.y as usize,
            width: patch.width as usize,
            height: patch.height as usize,
            patch_stride: patch.stride,
        }
    }

    /// Whether a patch can go on the surface.
    pub fn check_patch(&self, patch: &FramePatch) -> (result: Result<(), Failure>)
        ensures
            match self.patch_failure(patch) {
                None => result is Ok,
                Some(message) => result matches Err(failure) && failure@ == seq![message],
            },
    {
        if !self.allocated {
            return Err(
                Failure::of("software presenter patch arrived before the initial frame"),
            );
        }
        match (patch.x as usize).checked_add(patch.width as usize) {
            None => return Err(Failure::of("patch width overflow")),
            Some(right) => if right > self.width as usize {
                return Err(
                    Failure::of("software framebuffer patch falls outside the presenter bounds"),
                );
            },
        }
        match (patch.y as usize).checked_add(patch.height as usize) {
            None => return Err(Failure::of("patch height overflow")),
            Some(bottom) => if bottom > self.height as usize {
                return Err(
                    Failure::of("software framebuffer patch falls outside the presenter bounds"),
                );
            },
        }
        Ok(())
    }

    /// Paints a patch on the surface, whose rows are `stride` bytes long, and gives the part that
    /// has changed.
    pub fn apply_patch(
        &self,
        order: ByteOrder,
        patch: &FramePatch,
        stride: i32,
        surface: &mut [u8],
    ) -> (result: Result<DirtyRect, Failure>)
        requires
            self.wf(),
        ensures
            if self.patch_failure(patch) is Some {
                &&& result matches Err(failure)
                &&& failure@ == seq![self.patch_failure(patch)->0]
                &&& final(surface)@ == old(surface)@
            } else if stride < 0 {
                &&& result matches Err(failure)
                &&& failure@ == seq!["invalid software framebuffer stride"@, OUT_OF_RANGE@]
                &&& final(surface)@ == old(surface)@
            } else {
                let layout = Self::patch_layout(patch, stride as int);
                &&& match layout.failure(patch.data@.len() as int, old(surface)@.len() as int) {
                    None => result == Ok::<DirtyRect, Failure>(
                        (DirtyRect {
                            x: patch.x as i32,
                            y: patch.y as i32,
                            width: patch.width as i32,
                            height: patch.height as i32,
                        }),
                    ),
                    Some(message) => result matches Err(failure) && failure@ == seq![message],
                }
                &&& final(surface)@ == if layout.width * 4 > usize::MAX {
                    old(surface)@
                } else {
                    layout.painted(
                        order,
                        old(surface)@,
                        patch.data@,
                        layout.rows_painted(
                            patch.data@.len() as int,
                            old(surface)@.len() as int,
                            0,
                        ),
                    )
                }
            },
    {
        match self.check_patch(patch) {
            Ok(_) => {},
            Err(failure) => return Err(failure),
        }
        if stride < 0 {
            return Err(out_of_range("invalid software framebuffer stride".to_owned()));
        }
        let layout = PatchLayout {
            surface_stride: stride as usize,
            x: patch.x as usize,
            y: patch.y as usize,
            width: patch.width as usize,
            height: patch.height as usize,
            patch_stride: patch.stride,
        };
        match apply_rgba_patch_to_cairo_argb32(order, surface, layout, patch.data.as_slice()) {
            Ok(_) => Ok(
                DirtyRect {
                    x: patch.x as i32,
                    y: patch.y as i32,
                    width: patch.width as i32,
                    height: patch.height as i32,
                },
            ),
            Err(failure) => Err(failure),
        }
    }

    /// The width that the surface reports.
    pub fn intrinsic_width(&self) -> (width: i32)
        ensures
            width == if self.spec_width() > i32::MAX {
                i32::MAX as int
            } else {
                self.spec_width() as int
            },
    {
        if self.width > 0x7fff_ffff {
            i32::MAX
        } else {
            self.width as i32
        }
    }

    /// The height that the surface reports.
    pub fn intrinsic_height(&self) -> (height: i32)
        ensures
            height == if self.spec_height() > i32::MAX {
                i32::MAX as int
            } else {
                self.spec_height() as int
            },
    {
        if self.height > 0x7fff_ffff {
            i32::MAX
        } else {
            self.height as i32
        }
    }

    /// The width in pixels.
    pub fn width(&self) -> (width: u32)
        ensures
            width == self.spec_width(),
    {
        self.width
    }

    /// The height in pixels.
    pub fn height(&self) -> (height: u32)
        ensures
            height == self.spec_height(),
    {
        self.height
    }
}

/// A whole frame as a patch.
pub fn whole_patch(snapshot: FrameSnapshot) -> (patch: FramePatch)
    ensures
        patch.x == 0,
        patch.y == 0,
        patch.width == snapshot.width,
        patch.height == snapshot.height,
        patch.stride == snapshot.stride,
        patch.data == snapshot.data,
{
    FramePatch {
        x: 0,
        y: 0,
        width: snapshot.width,
        height: snapshot.height,
        stride: snapshot.stride,
        data: snapshot.data,
    }
}

/// Why the bytes of the surface could not be reached, on top of the cause.
pub fn surface_access_failure(cause: Failure) -> (failure: Failure)
    ensures
        failure@ == seq!["failed to access the software framebuffer surface data"@] + cause@,
{
    cause.context("failed to access the software framebuffer surface data".to_owned())
}


/// A patch whose rows are all there, at a place where the surface has all the rows, is painted to
/// its last row.
pub proof fn complete_patches_are_painted(layout: PatchLayout, patch_len: usize, surface_len: usize)
    requires
        layout.width * 4 <= layout.patch_stride,
        layout.height * layout.patch_stride <= patch_len,
        (layout.x + layout.width) * 4 <= layout.surface_stride,
        (layout.y + layout.height) * layout.surface_stride <= surface_len,
    ensures
        layout.failure(patch_len as int, surface_len as int) is None,
        layout.rows_painted(patch_len as int, surface_len as int, 0) == layout.height,
{
    complete_rows_are_painted(layout, patch_len, surface_len, 0);
}

proof fn complete_rows_are_painted(
    layout: PatchLayout,
    patch_len: usize,
    surface_len: usize,
    row: int,
)
    requires
        0 <= row <= layout.height,
        layout.width * 4 <= layout.patch_stride,
        layout.height * layout.patch_stride <= patch_len,
        (layout.x + layout.width) * 4 <= layout.surface_stride,
        (layout.y + layout.height) * layout.surface_stride <= surface_len,
    ensures
        layout.rows_painted(patch_len as int, surface_len as int, row) == layout.height,
    decreases layout.height - row,
{
    if row < layout.height {
        assert(row * layout.patch_stride + layout.patch_stride <= layout.height
            * layout.patch_stride) by (nonlinear_arith)
            requires
                row < layout.height,
                0 <= layout.patch_stride,
        ;
        assert((layout.y + row) * layout.surface_stride + layout.surface_stride <= (layout.y
            + layout.height) * layout.surface_stride) by (nonlinear_arith)
            requires
                row < layout.height,
                0 <= layout.surface_stride,
        ;
        assert(layout.row_failure(patch_len as int, surface_len as int, row) is None);
        complete_rows_are_painted(layout, patch_len, surface_len, row + 1);
    }
}

/// A scaled channel is the whole number nearest to the exact product.
pub proof fn channels_are_scaled_to_the_nearest(channel: u8, alpha: u8, scaled: u8)
    requires
        call_ensures(premultiply, (channel, alpha), scaled),
    ensures
        -255 <= 2 * (scaled * 255 - channel * alpha) <= 255,
{
}

proof fn rows_fit_in_turn(layout: PatchLayout, patch_len: int, surface_len: int, row: int)
    requires
        0 <= row <= layout.height,
        0 <= patch_len <= usize::MAX,
        0 <= surface_len <= usize::MAX,
    ensures
        ({
            let rows = layout.rows_painted(patch_len, surface_len, row);
            let last = layout.height - 1;
            let len = layout.width * 4;
            &&& row <= rows <= layout.height
            &&& rows < layout.height ==> layout.row_failure(patch_len, surface_len, rows) is Some
            &&& rows == layout.height <==> row == layout.height || last * layout.patch_stride + len
                <= patch_len && (layout.y + last) * layout.surface_stride + layout.x * 4 + len
                <= surface_len
            &&& forall|r: int|
                row <= r < rows ==> (#[trigger] layout.target(r)) + len <= surface_len
        }),
    decreases layout.height - row,
{
    if row < layout.height {
        let last = layout.height - 1;
        assert(row * layout.patch_stride <= last * layout.patch_stride) by (nonlinear_arith)
            requires
                row <= last,
                0 <= layout.patch_stride,
        ;
        assert((layout.y + row) * layout.surface_stride <= (layout.y + last)
            * layout.surface_stride) by (nonlinear_arith)
            requires
                row <= last,
                0 <= layout.surface_stride,
        ;
        assert(0 <= row * layout.patch_stride && 0 <= (layout.y + row) * layout.surface_stride)
            by (nonlinear_arith)
            requires
                0 <= row,
                0 <= layout.y,
                0 <= layout.patch_stride,
                0 <= layout.surface_stride,
        ;
        if layout.row_failure(patch_len, surface_len, row) is None {
            rows_fit_in_turn(layout, patch_len, surface_len, row + 1);
        }
    }
}

/// On a surface whose rows are long enough, a patch is painted whole exactly where there is a
/// surface, the patch lies in it, its bytes cover its rows and the surface has the bytes for them.
/// The word at each place of the patch then holds its pixel, with the colours scaled by alpha, and
/// all bytes at other places are as they were. The part that has changed is the patch's rectangle.
pub proof fn patches_are_painted_in_their_place(
    state: SoftwarePaintableState,
    order: ByteOrder,
    patch: FramePatch,
    stride: i32,
    surface: &mut [u8],
    result: Result<DirtyRect, Failure>,
)
    requires
        state.wf(),
        (patch.x + patch.width) * 4 <= stride,
        call_ensures(
            SoftwarePaintableState::apply_patch,
            (&state, order, &patch, stride, surface),
            result,
        ),
    ensures
        result is Ok <==> {
            &&& state.spec_allocated()
            &&& patch.x + patch.width <= state.spec_width()
            &&& patch.y + patch.height <= state.spec_height()
            &&& patch.height == 0 || {
                &&& (patch.height - 1) * patch.stride + patch.width * 4 <= patch.data@.len()
                &&& (patch.y + patch.height - 1) * stride + (patch.x + patch.width) * 4 <= old(
                    surface,
                )@.len()
            }
        },
        final(surface)@.len() == old(surface)@.len(),
        result matches Ok(changed) ==> {
            &&& changed.x == patch.x && changed.y == patch.y
            &&& changed.width == patch.width && changed.height == patch.height
            &&& forall|column: int, row: int|
                0 <= column < patch.width && 0 <= row < patch.height
                    ==> #[trigger] PixelFormat::A8r8g8b8.decoded(
                    order,
                    final(surface)@,
                    (patch.y + row) * stride + patch.x * 4 + column * 4,
                ) == premultiplied(rgba_at(patch.data@, row * patch.stride + column * 4))
        },
        forall|i: int|
            0 <= i < old(surface)@.len() && (forall|row: int|
                0 <= row < patch.height ==> !(#[trigger] ((patch.y + row) * stride) + patch.x * 4
                    <= i < (patch.y + row) * stride + (patch.x + patch.width) * 4))
                ==> #[trigger] final(surface)@[i] == old(surface)@[i],
{
    let patch_len = patch.data@.len() as int;
    let surface_len = old(surface)@.len() as int;
    assert(patch_len == patch.data.len());
    assert(surface_len == old(surface).len());
    if state.patch_failure(&patch) is None {
        let layout = SoftwarePaintableState::patch_layout(&patch, stride as int);
        let rows = layout.rows_painted(patch_len, surface_len, 0);
        rows_fit_in_turn(layout, patch_len, surface_len, 0);
        painted_keeps_length(layout, order, old(surface)@, patch.data@, rows);
        painted_patch_shows_its_pixels(layout, order, old(surface)@, patch.data@, rows);
        assert(forall|row: int| #[trigger]
            layout.target(row) == (patch.y + row) * stride + patch.x * 4);
        if result is Ok {
            assert forall|column: int, row: int|
                0 <= column < patch.width && 0 <= row
                    < patch.height implies #[trigger] PixelFormat::A8r8g8b8.decoded(
                order,
                final(surface)@,
                (patch.y + row) * stride + patch.x * 4 + column * 4,
            ) == premultiplied(rgba_at(patch.data@, row * patch.stride + column * 4)) by {
                assert(layout.target(row) == (patch.y + row) * stride + patch.x * 4);
                assert(PixelFormat::A8r8g8b8.decoded(
                    order,
                    layout.painted(order, old(surface)@, patch.data@, rows),
                    layout.target(row) + column * 4,
                ) == premultiplied(rgba_at(patch.data@, row * layout.patch_stride + column * 4)));
            }
        }
        assert forall|i: int|
            0 <= i < old(surface)@.len() && (forall|row: int|
                0 <= row < patch.height ==> !(#[trigger] ((patch.y + row) * stride) + patch.x * 4
                    <= i < (patch.y + row) * stride + (patch.x + patch.width)
                    * 4)) implies #[trigger] final(surface)@[i] == old(surface)@[i] by {
            assert forall|row: int| 0 <= row < rows implies !((#[trigger] layout.target(row)) <= i
                < layout.target(row) + layout.width * 4) by {
                let start = (patch.y + row) * stride;
                assert(layout.target(row) == start + patch.x * 4);
            }
            assert(layout.painted(order, old(surface)@, patch.data@, rows)[i] == old(surface)@[i]);
        }
    }
}

/// Scaling by alpha keeps alpha and brings each colour to the whole number nearest to the product.
pub proof fn pixels_are_scaled_by_alpha(pixel: Rgba)
    ensures
        ({
            let scaled = premultiplied(pixel);
            &&& scaled.alpha == pixel.alpha
            &&& -255 <= 2 * (scaled.red * 255 - pixel.red * pixel.alpha) <= 255
            &&& -255 <= 2 * (scaled.green * 255 - pixel.green * pixel.alpha) <= 255
            &&& -255 <= 2 * (scaled.blue * 255 - pixel.blue * pixel.alpha) <= 255
        }),
{
    premultiplied_channels_stay_below_alpha(pixel.red, pixel.alpha);
    premultiplied_channels_stay_below_alpha(pixel.green, pixel.alpha);
    premultiplied_channels_stay_below_alpha(pixel.blue, pixel.alpha);
}

/// A frame goes on the present surface exactly where there is one of its size; else a surface of its
/// size is asked for, with the rows that the drawing library wants.
pub proof fn surfaces_fit_their_frames(
    state: SoftwarePaintableState,
    snapshot: FrameSnapshot,
    stride: Result<i32, Failure>,
    result: Result<Option<SurfacePlan>, Failure>,
)
    requires
        stride matches Ok(bytes) ==> 0 <= bytes * snapshot.height <= usize::MAX,
        call_ensures(
            SoftwarePaintableState::plan_surface,
            (&state, &snapshot, stride),
            result,
        ),
    ensures
        result matches Ok(None) <==> state.spec_allocated() && state.spec_width() == snapshot.width
            && state.spec_height() == snapshot.height,
        result matches Ok(Some(plan)) ==> {
            &&& plan.width == snapshot.width && plan.height == snapshot.height
            &&& stride is Ok && plan.stride == stride->Ok_0
            &&& plan.bytes == plan.stride * plan.height || plan.stride < 0
        },
        result is Err ==> snapshot.width > i32::MAX || snapshot.height > i32::MAX || stride is Err,
{
}

}
