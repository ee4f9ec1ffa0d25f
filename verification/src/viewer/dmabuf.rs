//! Frames that the guest hands over as DMA buffers.

use vstd::prelude::*;

use crate::error::Failure;
use crate::text::concat3;
use crate::text::concat4;
use crate::text::concat5;
use crate::text::number::decimal;
use crate::text::number::hex;
use crate::text::number::to_decimal;
use crate::text::number::to_hex;

verus! {

/// How the view turns and flips a frame.
#[derive(Copy, Clone, Debug, PartialEq, Eq, Structural)]
pub struct DmabufViewTransform {
    rotation_quarters: u8,
    extra_vertical_flip: bool,
}

impl DmabufViewTransform {
    /// There are four quarter turns.
    #[verifier::type_invariant]
    spec fn turns_are_quarters(self) -> bool {
        self.rotation_quarters < 4
    }

    /// How many quarter turns clockwise.
    pub closed spec fn quarters(self) -> int {
        self.rotation_quarters as int
    }

    /// Whether the frame is flipped once more than its origin asks for.
    pub closed spec fn flips(self) -> bool {
        self.extra_vertical_flip
    }

    /// The text that describes the transform.
    pub open spec fn description(self) -> Seq<char> {
        "DMABUF transform: rotate="@ + decimal((self.quarters() * 90) as nat) + " extra-flip-y="@
            + if self.flips() {
            "on"@
        } else {
            "off"@
        }
    }

    /// One more quarter turn clockwise.
    pub fn rotate_clockwise(&mut self)
        ensures
            turned(*old(self), *final(self)),
    {
        proof {
            use_type_invariant(&*self);
        }
        let next: u8 = (self.rotation_quarters + 1) % 4;
        *self = DmabufViewTransform {
            rotation_quarters: next,
            extra_vertical_flip: self.extra_vertical_flip,
        };
    }

    /// One more flip.
    pub fn toggle_vertical_flip(&mut self)
        ensures
            final(self).flips() == !old(self).flips(),
            final(self).quarters() == old(self).quarters(),
    {
        proof {
            use_type_invariant(&*self);
        }
        *self = DmabufViewTransform {
            rotation_quarters: self.rotation_quarters,
            extra_vertical_flip: !self.extra_vertical_flip,
        };
    }

    /// Back to the start.
    pub fn reset(&mut self)
        ensures
            final(self).quarters() == 0,
            final(self).flips(),
    {
        *self = DmabufViewTransform::default();
    }

    /// How many quarter turns clockwise.
    pub fn rotation_quarters(self) -> (turns: u8)
        ensures
            turns == self.quarters(),
            turns < 4,
    {
        proof {
            use_type_invariant(&self);
        }
        self.rotation_quarters
    }

    /// The angle in degrees.
    pub fn rotation_degrees(self) -> (degrees: u16)
        ensures
            degrees == self.quarters() * 90,
            degrees < 360,
    {
        proof {
            use_type_invariant(&self);
        }
        self.rotation_quarters as u16 * 90
    }

    /// The transform in words.
    pub fn describe(self) -> (text: String)
        ensures
            text@ == self.description(),
    {
        let degrees = to_decimal(self.rotation_degrees() as u64);
        let flip = if self.extra_vertical_flip {
            "on"
        } else {
            "off"
        };
        concat4("DMABUF transform: rotate=", degrees.as_str(), " extra-flip-y=", flip)
    }

    /// Whether a frame is drawn upside down.
    pub fn needs_vertical_flip(self, y0_top: bool) -> (flip: bool)
        ensures
            flip == (!y0_top != self.flips()),
    {
        !y0_top != self.extra_vertical_flip
    }
}

impl Default for DmabufViewTransform {
    fn default() -> (transform: DmabufViewTransform)
        ensures
            transform.quarters() == 0,
            transform.flips(),
    {
        DmabufViewTransform { rotation_quarters: 0, extra_vertical_flip: true }
    }
}

/// One more quarter turn leads from one transform to the other.
pub open spec fn turned(before: DmabufViewTransform, after: DmabufViewTransform) -> bool {
    &&& after.quarters() == (before.quarters() + 1) % 4
    &&& after.flips() == before.flips()
}

/// After four quarter turns a frame is where it was.
pub proof fn four_turns_come_full_circle(
    start: DmabufViewTransform,
    one: DmabufViewTransform,
    two: DmabufViewTransform,
    three: DmabufViewTransform,
    four: DmabufViewTransform,
)
    requires
        0 <= start.quarters() < 4,
        turned(start, one),
        turned(one, two),
        turned(two, three),
        turned(three, four),
    ensures
        four == start,
{
}

/// What the guest says of a frame, but for its file descriptors.
#[derive(Copy, Clone, Debug)]
pub struct DmabufShape {
    pub width: u32,
    pub height: u32,
    pub offset: [u32; 4],
    pub stride: [u32; 4],
    pub fourcc: u32,
    pub modifier: u64,
    pub y0_top: bool,
    pub num_planes: u32,
}

/// A frame with the file descriptor of each of its planes.
#[derive(Debug)]
pub struct DmabufFrame {
    pub fds: Vec<i32>,
    pub shape: DmabufShape,
}

/// A frame that was refused, with the file descriptors that had been taken over by then.
#[derive(Debug)]
pub struct DmabufRejection {
    pub failure: Failure,
    pub adopted: Vec<i32>,
}

/// How many of the first `count` descriptors come before one that is not valid.
pub open spec fn valid_fds(fds: Seq<i32>, count: int, from: int) -> int
    decreases count - from,
{
    if from >= count || fds[from] < 0 {
        from
    } else {
        valid_fds(fds, count, from + 1)
    }
}

impl DmabufFrame {
    /// The frame, unless its plane count or one of its descriptors is not valid.
    pub fn try_from_raw_parts(raw_fds: [i32; 4], shape: DmabufShape) -> (result: Result<
        DmabufFrame,
        DmabufRejection,
    >)
        ensures
            if shape.num_planes == 0 || shape.num_planes > 4 {
                &&& result matches Err(rejection)
                &&& rejection.failure@ == seq![
                    "DMABUF plane count "@ + decimal(shape.num_planes as nat)
                        + " is not supported"@,
                ]
                &&& rejection.adopted@ == Seq::<i32>::empty()
            } else {
                let valid = valid_fds(raw_fds@, shape.num_planes as int, 0);
                if valid < shape.num_planes {
                    &&& result matches Err(rejection)
                    &&& rejection.failure@ == seq![
                        "DMABUF plane "@ + decimal(valid as nat)
                            + " did not provide a valid file descriptor"@,
                    ]
                    &&& rejection.adopted@ == raw_fds@.take(valid)
                } else {
                    &&& result matches Ok(frame)
                    &&& frame.fds@ == raw_fds@.take(shape.num_planes as int)
                    &&& frame.shape == shape
                }
            },
    {
        let num_planes: u32 = shape.num_planes;
        if num_planes == 0 || num_planes > 4 {
            let count = to_decimal(num_planes as u64);
            return Err(
                DmabufRejection {
                    failure: Failure::new(
                        concat3("DMABUF plane count ", count.as_str(), " is not supported"),
                    ),
                    adopted: Vec::new(),
                },
            );
        }
        let plane_count: usize = num_planes as usize;
        let mut fds: Vec<i32> = Vec::new();
        for index in 0..plane_count
            invariant
                plane_count == shape.num_planes,
                plane_count <= 4,
                raw_fds@.len() == 4,
                fds@ == raw_fds@.take(index as int),
                valid_fds(raw_fds@, plane_count as int, 0) == valid_fds(
                    raw_fds@,
                    plane_count as int,
                    index as int,
                ),
        {
            let raw_fd: i32 = raw_fds[index];
            if raw_fd < 0 {
                let plane = to_decimal(index as u64);
                return Err(
                    DmabufRejection {
                        failure: Failure::new(
                            concat3(
                                "DMABUF plane ",
                                plane.as_str(),
                                " did not provide a valid file descriptor",
                            ),
                        ),
                        adopted: fds,
                    },
                );
            }
            fds.push(raw_fd);
            assert(fds@ =~= raw_fds@.take(index + 1));
        }
        Ok(DmabufFrame { fds, shape })
    }
}

/// How many planes a texture is built from, or why it cannot be built. `format_supported` tells
/// whether the display can show the format.
pub fn check_texture(shape: &DmabufShape, fd_count: usize, format_supported: bool) -> (result:
    Result<usize, Failure>)
    ensures
        if !format_supported {
            result matches Err(failure) && failure@ == seq![
                "GTK does not support DMABUF fourcc "@ + hex(shape.fourcc as nat)
                    + " with modifier "@ + hex(shape.modifier as nat),
            ]
        } else if shape.num_planes != fd_count {
            result matches Err(failure) && failure@ == seq![
                "DMABUF reported "@ + decimal(shape.num_planes as nat) + " planes but provided "@
                    + decimal(fd_count as nat) + " file descriptors"@,
            ]
        } else {
            result == Ok::<usize, Failure>(fd_count)
        },
{
    if !format_supported {
        let fourcc = to_hex(shape.fourcc as u64);
        let modifier = to_hex(shape.modifier);
        return Err(
            Failure::new(
                concat4(
                    "GTK does not support DMABUF fourcc ",
                    fourcc.as_str(),
                    " with modifier ",
                    modifier.as_str(),
                ),
            ),
        );
    }
    if shape.num_planes as usize != fd_count {
        let planes = to_decimal(shape.num_planes as u64);
        let fds = to_decimal(fd_count as u64);
        return Err(
            Failure::new(
                concat5(
                    "DMABUF reported ",
                    planes.as_str(),
                    " planes but provided ",
                    fds.as_str(),
                    " file descriptors",
                ),
            ),
        );
    }
    Ok(fd_count)
}

/// A changed part of a frame.
#[derive(Copy, Clone, Debug, PartialEq, Eq, Structural)]
pub struct UpdateDMABUF {
    pub x: i32,
    pub y: i32,
    pub w: i32,
    pub h: i32,
}

/// A rectangle in the coordinates of the drawing library.
#[derive(Copy, Clone, Debug, PartialEq, Eq, Structural)]
pub struct RectangleInt {
    pub x: i32,
    pub y: i32,
    pub width: i32,
    pub height: i32,
}

/// A non-negative value below 2^32 as the 32-bit signed integer with the same bits.
pub open spec fn wrapped(value: int) -> int {
    if value > i32::MAX {
        value - 0x1_0000_0000
    } else {
        value
    }
}

/// The nearest value between zero and `high`.
pub open spec fn limited(value: int, high: int) -> int {
    if value < 0 {
        0
    } else if value > high {
        high
    } else {
        value
    }
}

/// The visible part of one axis of an update: where it starts and where it ends.
pub open spec fn visible_span(start: i32, length: i32, size: u32) -> (int, int) {
    let cap = if size > i32::MAX {
        i32::MAX as int
    } else {
        size as int
    };
    (limited(start as int, cap), wrapped(limited(start + length, size as int)))
}

/// The visible part of an update.
pub open spec fn update_rectangle(update: UpdateDMABUF, width: u32, height: u32) -> Option<
    RectangleInt,
> {
    let (x0, x1) = visible_span(update.x, update.w, width);
    let (y0, y1) = visible_span(update.y, update.h, height);
    if update.w <= 0 || update.h <= 0 || x1 <= x0 || y1 <= y0 {
        None
    } else {
        Some(
            RectangleInt {
                x: x0 as i32,
                y: y0 as i32,
                width: (x1 - x0) as i32,
                height: (y1 - y0) as i32,
            },
        )
    }
}

fn span(start: i32, length: i32, size: u32) -> (ends: (i32, i32))
    requires
        length > 0,
    ensures
        (ends.0 as int, ends.1 as int) == visible_span(start, length, size),
        0 <= ends.0,
{
    let first: i32 = if start < 0 {
        0
    } else if size <= 0x7fff_ffff && start > size as i32 {
        size as i32
    } else {
        start
    };
    let sum: i64 = start as i64 + length as i64;
    let end: i64 = if sum < 0 {
        0
    } else if sum > size as i64 {
        size as i64
    } else {
        sum
    };
    let last: i32 = if end > 0x7fff_ffff {
        (end - 0x1_0000_0000) as i32
    } else {
        end as i32
    };
    (first, last)
}

/// The visible part of an update, if there is one.
pub fn dmabuf_update_rectangle(update: UpdateDMABUF, width: u32, height: u32) -> (rectangle: Option<
    RectangleInt,
>)
    ensures
        rectangle == update_rectangle(update, width, height),
{
    if update.w <= 0 || update.h <= 0 {
        return None;
    }
    let (x0, x1) = span(update.x, update.w, width);
    let (y0, y1) = span(update.y, update.h, height);
    if x1 <= x0 || y1 <= y0 {
        return None;
    }
    Some(RectangleInt { x: x0, y: y0, width: x1 - x0, height: y1 - y0 })
}

/// The visible parts of a list of updates, in order.
pub open spec fn update_rectangles(updates: Seq<UpdateDMABUF>, width: u32, height: u32) -> Seq<
    RectangleInt,
>
    decreases updates.len(),
{
    if updates.len() == 0 {
        Seq::empty()
    } else {
        let before = update_rectangles(updates.drop_last(), width, height);
        match update_rectangle(updates.last(), width, height) {
            Some(rectangle) => before.push(rectangle),
            None => before,
        }
    }
}

/// The visible parts of a list of updates, in order; none if there is no visible part.
pub fn dmabuf_update_region(updates: &Vec<UpdateDMABUF>, width: u32, height: u32) -> (region:
    Option<Vec<RectangleInt>>)
    ensures
        match region {
            Some(rectangles) => {
                &&& rectangles@ == update_rectangles(updates@, width, height)
                &&& rectangles.len() > 0
            },
            None => update_rectangles(updates@, width, height).len() == 0,
        },
{
    let mut rectangles: Vec<RectangleInt> = Vec::new();
    for i in 0..updates.len()
        invariant
            rectangles@ == update_rectangles(updates@.take(i as int), width, height),
    {
        assert(updates@.take(i + 1).drop_last() =~= updates@.take(i as int));
        if let Some(rectangle) = dmabuf_update_rectangle(updates[i], width, height) {
            rectangles.push(rectangle);
        }
    }
    assert(updates@.take(updates@.len() as int) =~= updates@);
    if rectangles.len() == 0 {
        None
    } else {
        Some(rectangles)
    }
}

/// On frames of a drawable size, a place lies in the visible part exactly when it lies in the
/// update and in the frame.
pub proof fn visible_part_is_the_intersection(
    update: UpdateDMABUF,
    width: u32,
    height: u32,
    x: int,
    y: int,
)
    requires
        width <= i32::MAX,
        height <= i32::MAX,
    ensures
        (match update_rectangle(update, width, height) {
            Some(part) => part.x <= x < part.x + part.width && part.y <= y < part.y + part.height,
            None => false,
        }) == (update.x <= x < update.x + update.w && update.y <= y < update.y + update.h && 0 <= x
            < width && 0 <= y < height),
{
}

/// What is known of the frame on screen.
#[derive(Debug)]
pub struct PaintableState {
    shown: bool,
    width: u32,
    height: u32,
    y0_top: bool,
    transform: DmabufViewTransform,
}

impl PaintableState {
    /// There is a frame.
    pub closed spec fn spec_shown(&self) -> bool {
        self.shown
    }

    /// The width in pixels.
    pub closed spec fn spec_width(&self) -> u32 {
        self.width
    }

    /// The height in pixels.
    pub closed spec fn spec_height(&self) -> u32 {
        self.height
    }

    /// The first row is the top one.
    pub closed spec fn spec_y0_top(&self) -> bool {
        self.y0_top
    }

    /// How the view turns and flips the frame.
    pub closed spec fn spec_transform(&self) -> DmabufViewTransform {
        self.transform
    }

    /// Takes over a frame and a transform. Tells whether the size has changed.
    pub fn update_from_presentation(
        &mut self,
        shape: &DmabufShape,
        transform: DmabufViewTransform,
    ) -> (size_changed: bool)
        ensures
            size_changed == (old(self).spec_width() != shape.width || old(self).spec_height()
                != shape.height),
            final(self).spec_shown(),
            final(self).spec_width() == shape.width,
            final(self).spec_height() == shape.height,
            final(self).spec_y0_top() == shape.y0_top,
            final(self).spec_transform() == transform,
    {
        let size_changed = self.width != shape.width || self.height != shape.height;
        self.shown = true;
        self.width = shape.width;
        self.height = shape.height;
        self.y0_top = shape.y0_top;
        self.transform = transform;
        size_changed
    }

    /// Whether there is a frame.
    pub fn shown(&self) -> (shown: bool)
        ensures
            shown == self.spec_shown(),
    {
        self.shown
    }

    /// How many quarter turns the frame is drawn with.
    pub fn quarter_turns(&self) -> (turns: u8)
        ensures
            turns == self.spec_transform().quarters(),
            turns < 4,
    {
        self.transform.rotation_quarters()
    }

    /// Whether the frame is drawn upside down.
    pub fn needs_vertical_flip(&self) -> (flip: bool)
        ensures
            flip == (!self.spec_y0_top() != self.spec_transform().flips()),
    {
        self.transform.needs_vertical_flip(self.y0_top)
    }

    /// The width that the frame reports.
    pub fn intrinsic_width(&self) -> (width: i32)
        ensures
            width == if self.spec_width() > i32::MAX {
                i32::MAX as int
            } else {
                self.spec_width() as int
            },
    {
        if self.width > 0x7fff_ffff {
            i32::MAX
        } else {
            self.width as i32
        }
    }

    /// The height that the frame reports.
    pub fn intrinsic_height(&self) -> (height: i32)
        ensures
            height == if self.spec_height() > i32::MAX {
                i32::MAX as int
            } else {
                self.spec_height() as int
            },
    {
        if self.height > 0x7fff_ffff {
            i32::MAX
        } else {
            self.height as i32
        }
    }
}

impl Default for PaintableState {
    fn default() -> (state: PaintableState)
        ensures
            !state.spec_shown(),
            state.spec_width() == 0,
            state.spec_height() == 0,
            state.spec_y0_top(),
            state.spec_transform().quarters() == 0,
            state.spec_transform().flips(),
    {
        PaintableState {
            shown: false,
            width: 0,
            height: 0,
            y0_top: true,
            transform: DmabufViewTransform::default(),
        }
    }
}


/// The first four values of a list, with `fill` where there are fewer.
pub open spec fn first_four(values: Seq<u32>, fill: u32) -> Seq<u32> {
    Seq::new(
        4,
        |i: int|
            if i < values.len() {
                values[i]
            } else {
                fill
            },
    )
}

fn at_or(values: &Vec<u32>, index: usize, fill: u32) -> (value: u32)
    ensures
        value == if index < values.len() {
            values@[index as int]
        } else {
            fill
        },
{
    if index < values.len() {
        values[index]
    } else {
        fill
    }
}

/// The first four values of a list, with `fill` where there are fewer.
pub fn pad_values(values: &Vec<u32>, fill: u32) -> (four: [u32; 4])
    ensures
        four@ == first_four(values@, fill),
{
    let four: [u32; 4] = [
        at_or(values, 0, fill),
        at_or(values, 1, fill),
        at_or(values, 2, fill),
        at_or(values, 3, fill),
    ];
    assert(four@ =~= first_four(values@, fill));
    four
}

/// The first four descriptors of a list, with -1 where there are fewer.
pub open spec fn first_four_fds(fds: Seq<i32>) -> Seq<i32> {
    Seq::new(
        4,
        |i: int|
            if i < fds.len() {
                fds[i]
            } else {
                -1i32
            },
    )
}

fn fd_or_none(fds: &Vec<i32>, index: usize) -> (fd: i32)
    ensures
        fd == if index < fds.len() {
            fds@[index as int]
        } else {
            -1i32
        },
{
    if index < fds.len() {
        fds[index]
    } else {
        -1
    }
}

/// The first four descriptors of a list, with -1 where there are fewer.
pub fn pad_fds(fds: &Vec<i32>) -> (four: [i32; 4])
    ensures
        four@ == first_four_fds(fds@),
{
    let four: [i32; 4] = [
        fd_or_none(fds, 0),
        fd_or_none(fds, 1),
        fd_or_none(fds, 2),
        fd_or_none(fds, 3),
    ];
    assert(four@ =~= first_four_fds(fds@));
    four
}

/// The shape of a frame with a single plane.
pub fn single_plane_shape(
    width: u32,
    height: u32,
    stride: u32,
    fourcc: u32,
    modifier: u64,
    y0_top: bool,
) -> (shape: DmabufShape)
    ensures
        shape.width == width,
        shape.height == height,
        shape.offset@ == seq![0u32, 0, 0, 0],
        shape.stride@ == seq![stride, 0, 0, 0],
        shape.fourcc == fourcc,
        shape.modifier == modifier,
        shape.y0_top == y0_top,
        shape.num_planes == 1,
{
    let offset: [u32; 4] = [0, 0, 0, 0];
    let strides: [u32; 4] = [stride, 0, 0, 0];
    assert(offset@ =~= seq![0u32, 0, 0, 0]);
    assert(strides@ =~= seq![stride, 0, 0, 0]);
    DmabufShape { width, height, offset, stride: strides, fourcc, modifier, y0_top, num_planes: 1 }
}

proof fn valid_fds_come_first(fds: Seq<i32>, count: int, from: int)
    requires
        0 <= from <= count,
    ensures
        ({
            let valid = valid_fds(fds, count, from);
            &&& from <= valid <= count
            &&& forall|i: int| from <= i < valid ==> #[trigger] fds[i] >= 0
            &&& valid < count ==> fds[valid] < 0
        }),
    decreases count - from,
{
    if from < count && fds[from] >= 0 {
        valid_fds_come_first(fds, count, from + 1);
    }
}

/// A frame is taken exactly where it has one to four planes and each has a valid descriptor; it then
/// has those descriptors, one for each plane in order, and its shape. From a frame that is refused,
/// the descriptors before the first that is not valid are handed back.
pub proof fn frames_with_valid_planes_are_taken(
    raw_fds: [i32; 4],
    shape: DmabufShape,
    result: Result<DmabufFrame, DmabufRejection>,
)
    requires
        call_ensures(DmabufFrame::try_from_raw_parts, (raw_fds, shape), result),
    ensures
        result is Ok <==> 1 <= shape.num_planes <= 4 && forall|i: int|
            0 <= i < shape.num_planes ==> #[trigger] raw_fds@[i] >= 0,
        result matches Ok(frame) ==> {
            &&& frame.shape == shape
            &&& frame.fds.len() == shape.num_planes
            &&& forall|i: int| 0 <= i < frame.fds.len() ==> #[trigger] frame.fds@[i] == raw_fds@[i]
        },
        result matches Err(rejection) ==> {
            let adopted = rejection.adopted@;
            &&& adopted.len() < 4
            &&& forall|i: int|
                0 <= i < adopted.len() ==> #[trigger] adopted[i] == raw_fds@[i] && adopted[i] >= 0
            &&& 1 <= shape.num_planes <= 4 ==> adopted.len() < shape.num_planes
                && raw_fds@[adopted.len() as int] < 0
            &&& !(1 <= shape.num_planes <= 4) ==> adopted.len() == 0
        },
{
    if 1 <= shape.num_planes <= 4 {
        valid_fds_come_first(raw_fds@, shape.num_planes as int, 0);
    }
}

/// Lists are cut or filled up to four, and what is kept stays in its place.
pub proof fn four_places_are_filled(
    values: Vec<u32>,
    fill: u32,
    four: [u32; 4],
    fds: Vec<i32>,
    four_fds: [i32; 4],
)
    requires
        call_ensures(pad_values, (&values, fill), four),
        call_ensures(pad_fds, (&fds,), four_fds),
    ensures
        forall|i: int| 0 <= i < 4 && i < values.len() ==> #[trigger] four@[i] == values[i],
        forall|i: int| values.len() <= i < 4 ==> #[trigger] four@[i] == fill,
        forall|i: int| 0 <= i < 4 && i < fds.len() ==> #[trigger] four_fds@[i] == fds[i],
        forall|i: int| fds.len() <= i < 4 ==> #[trigger] four_fds@[i] == -1,
{
}

/// The place lies in the rectangle.
pub open spec fn covers(part: RectangleInt, x: int, y: int) -> bool {
    part.x <= x < part.x + part.width && part.y <= y < part.y + part.height
}

/// The place lies in the update.
pub open spec fn touches(update: UpdateDMABUF, x: int, y: int) -> bool {
    update.x <= x < update.x + update.w && update.y <= y < update.y + update.h
}

proof fn visible_parts_are_the_intersection(
    updates: Seq<UpdateDMABUF>,
    width: u32,
    height: u32,
    x: int,
    y: int,
)
    requires
        width <= i32::MAX,
        height <= i32::MAX,
    ensures
        (exists|i: int|
            0 <= i < update_rectangles(updates, width, height).len() && covers(
                #[trigger] update_rectangles(updates, width, height)[i],
                x,
                y,
            )) <==> 0 <= x < width && 0 <= y < height && exists|i: int|
            0 <= i < updates.len() && touches(#[trigger] updates[i], x, y),
    decreases updates.len(),
{
    if updates.len() > 0 {
        let fewer = updates.drop_last();
        let before = update_rectangles(fewer, width, height);
        let now = update_rectangles(updates, width, height);
        let last = updates.last();
        let part = update_rectangle(last, width, height);
        visible_parts_are_the_intersection(fewer, width, height, x, y);
        visible_part_is_the_intersection(last, width, height, x, y);
        let inside = 0 <= x < width && 0 <= y < height;
        if exists|i: int| 0 <= i < now.len() && covers(#[trigger] now[i], x, y) {
            let i = choose|i: int| 0 <= i < now.len() && covers(#[trigger] now[i], x, y);
            if i < before.len() {
                assert(covers(before[i], x, y));
                let j = choose|j: int| 0 <= j < fewer.len() && touches(#[trigger] fewer[j], x, y);
                assert(touches(updates[j], x, y));
            } else {
                assert(now[i] == part->0);
                assert(touches(updates[updates.len() - 1], x, y));
            }
        }
        if inside && exists|j: int| 0 <= j < updates.len() && touches(#[trigger] updates[j], x, y) {
            let j = choose|j: int| 0 <= j < updates.len() && touches(#[trigger] updates[j], x, y);
            if j < fewer.len() {
                assert(touches(fewer[j], x, y));
                let i = choose|i: int| 0 <= i < before.len() && covers(#[trigger] before[i], x, y);
                assert(covers(now[i], x, y));
            } else {
                assert(part is Some);
                assert(covers(now[before.len() as int], x, y));
            }
        }
    }
}

/// On frames of a drawable size, what is drawn again for a list of updates is what one of them has
/// touched and the frame holds, and nothing else; nothing is drawn where there is no such place.
pub proof fn touched_places_are_drawn_again(
    updates: Vec<UpdateDMABUF>,
    width: u32,
    height: u32,
    region: Option<Vec<RectangleInt>>,
    x: int,
    y: int,
)
    requires
        width <= i32::MAX,
        height <= i32::MAX,
        call_ensures(dmabuf_update_region, (&updates, width, height), region),
    ensures
        region matches Some(rectangles) ==> rectangles.len() > 0,
        (region is Some && exists|i: int|
            0 <= i < region->0.len() && covers(#[trigger] region->0[i], x, y)) <==> 0 <= x < width
            && 0 <= y < height && exists|i: int|
            0 <= i < updates.len() && touches(#[trigger] updates[i], x, y),
{
    visible_parts_are_the_intersection(updates@, width, height, x, y);
    let all = update_rectangles(updates@, width, height);
    if region is Some {
        assert(forall|i: int| 0 <= i < all.len() ==> region->0[i] == #[trigger] all[i]);
    }
    if exists|i: int| 0 <= i < updates.len() && touches(#[trigger] updates[i], x, y) {
        let i = choose|i: int| 0 <= i < updates.len() && touches(#[trigger] updates[i], x, y);
        assert(touches(updates@[i], x, y));
    }
    if exists|i: int| 0 <= i < updates@.len() && touches(#[trigger] updates@[i], x, y) {
        let i = choose|i: int| 0 <= i < updates@.len() && touches(#[trigger] updates@[i], x, y);
        assert(touches(updates[i], x, y));
    }
}

/// Each turn adds ninety degrees, and the fourth leads back. A turn is no flip and a flip no turn;
/// two flips cancel. A frame whose first row is at the top is drawn upside down exactly where it is
/// flipped, and one whose first row is at the bottom exactly where it is not.
pub proof fn turns_and_flips_are_apart(
    turned: &mut DmabufViewTransform,
    flipped: &mut DmabufViewTransform,
    transform: DmabufViewTransform,
    degrees: u16,
    top: bool,
    bottom: bool,
)
    requires
        0 <= old(turned).quarters() < 4,
        call_ensures(DmabufViewTransform::rotate_clockwise, (turned,), ()),
        call_ensures(DmabufViewTransform::toggle_vertical_flip, (flipped,), ()),
        call_ensures(DmabufViewTransform::rotation_degrees, (transform,), degrees),
        call_ensures(DmabufViewTransform::needs_vertical_flip, (transform, true), top),
        call_ensures(DmabufViewTransform::needs_vertical_flip, (transform, false), bottom),
    ensures
        transform == *old(turned) && degrees < 270 ==> final(turned).quarters() * 90 == degrees
            + 90,
        transform == *old(turned) && degrees == 270 ==> final(turned).quarters() == 0,
        final(turned).flips() == old(turned).flips(),
        final(flipped).quarters() == old(flipped).quarters(),
        final(flipped).flips() != old(flipped).flips(),
        top <==> transform.flips(),
        bottom <==> !transform.flips(),
{
}

/// A value of 32 bits is read as the signed integer that is the same but for a multiple of 2^32.
pub proof fn signed_values_keep_the_bits(value: int)
    requires
        0 <= value < 0x1_0000_0000,
    ensures
        i32::MIN <= wrapped(value) <= i32::MAX,
        (value - wrapped(value)) % 0x1_0000_0000 == 0,
        value <= i32::MAX ==> wrapped(value) == value,
{
}

}
