//! The guest's mouse cursor.

use vstd::prelude::*;

use super::pixel::rgba_at;
use super::pixel::ByteOrder;
use super::pixel::PixelFormat;
use crate::error::out_of_range;
use crate::error::Failure;
use crate::error::OUT_OF_RANGE;
use crate::text::concat5;
use crate::text::number::decimal;
use crate::text::number::to_decimal;

verus! {

/// The size of one cursor pixel.
pub const CURSOR_BYTES_PER_PIXEL: usize = 4;

/// A cursor as the guest defines it: native ARGB words, row after row.
#[derive(Debug)]
pub struct Cursor {
    pub width: i32,
    pub height: i32,
    pub hot_x: i32,
    pub hot_y: i32,
    pub data: Vec<u8>,
}

/// A cursor shape as RGBA pixels, row after row.
#[derive(Debug)]
pub struct GuestCursor {
    pub width: i32,
    pub height: i32,
    pub hotspot_x: i32,
    pub hotspot_y: i32,
    pub rgba: Vec<u8>,
}

/// The nearest value to `value` between zero and `high`.
pub open spec fn clamped(value: int, high: int) -> int {
    if value < 0 {
        0
    } else if value > high {
        high
    } else {
        value
    }
}

/// The bytes are the RGBA form of the first pixels of native ARGB words.
pub open spec fn rgba_of_words(order: ByteOrder, words: Seq<u8>, rgba: Seq<u8>) -> bool {
    &&& rgba.len() == words.len() / 4 * 4
    &&& forall|i: int|
        0 <= i < words.len() / 4 ==> #[trigger] rgba_at(rgba, i * 4)
            == PixelFormat::A8r8g8b8.decoded(order, words, i * 4)
}

/// The RGBA form of native ARGB words. Bytes after the last whole word are left out.
pub fn argb32_words_to_rgba(words: &[u8], order: ByteOrder) -> (rgba: Vec<u8>)
    ensures
        rgba_of_words(order, words@, rgba@),
{
    let mut rgba: Vec<u8> = Vec::new();
    let pixels: usize = words.len() / CURSOR_BYTES_PER_PIXEL;
    for i in 0..pixels
        invariant
            pixels == words@.len() / 4,
            rgba.len() == i * 4,
            forall|j: int|
                0 <= j < i ==> #[trigger] rgba_at(rgba@, j * 4)
                    == PixelFormat::A8r8g8b8.decoded(order, words@, j * 4),
    {
        assert(words@.len() == words.len());
        let ghost before = rgba@;
        let pixel = PixelFormat::A8r8g8b8.pixel_to_rgba(order, words, i * 4);
        rgba.push(pixel.red);
        rgba.push(pixel.green);
        rgba.push(pixel.blue);
        rgba.push(pixel.alpha);
        assert forall|j: int| 0 <= j < i + 1 implies #[trigger] rgba_at(rgba@, j * 4)
            == PixelFormat::A8r8g8b8.decoded(order, words@, j * 4) by {
            if j < i {
                assert(rgba_at(before, j * 4) == rgba_at(rgba@, j * 4));
            }
        }
    }
    rgba
}

impl Cursor {
    /// Why the cursor cannot be shown, if it cannot.
    pub open spec fn failure(&self) -> Option<Seq<Seq<char>>> {
        if self.width < 0 {
            Some(seq!["negative guest cursor width"@, OUT_OF_RANGE@])
        } else if self.height < 0 {
            Some(seq!["negative guest cursor height"@, OUT_OF_RANGE@])
        } else if self.width == 0 || self.height == 0 {
            None
        } else if self.width * self.height * 4 > usize::MAX {
            Some(seq!["guest cursor size overflow"@])
        } else if self.data.len() < self.width * self.height * 4 {
            Some(
                seq![
                    "guest cursor payload is too short for "@ + decimal(self.width as nat) + "x"@
                        + decimal(self.height as nat) + " pixels"@,
                ],
            )
        } else {
            None
        }
    }
}

impl GuestCursor {
    /// The shape for a cursor that the guest defined; none for an empty one.
    pub fn from_qemu(cursor: Cursor, order: ByteOrder) -> (result: Result<
        Option<GuestCursor>,
        Failure,
    >)
        ensures
            match result {
                Err(failure) => {
                    &&& cursor.failure() is Some
                    &&& failure@ == cursor.failure()->0
                },
                Ok(None) => {
                    &&& cursor.failure() is None
                    &&& cursor.width == 0 || cursor.height == 0
                },
                Ok(Some(shape)) => {
                    &&& cursor.failure() is None
                    &&& cursor.width > 0
                    &&& cursor.height > 0
                    &&& shape.width == cursor.width
                    &&& shape.height == cursor.height
                    &&& shape.hotspot_x == clamped(cursor.hot_x as int, cursor.width - 1)
                    &&& shape.hotspot_y == clamped(cursor.hot_y as int, cursor.height - 1)
                    &&& rgba_of_words(
                        order,
                        cursor.data@.take(cursor.width * cursor.height * 4),
                        shape.rgba@,
                    )
                },
            },
    {
        if cursor.width < 0 {
            return Err(out_of_range("negative guest cursor width".to_owned()));
        }
        if cursor.height < 0 {
            return Err(out_of_range("negative guest cursor height".to_owned()));
        }
        if cursor.width == 0 || cursor.height == 0 {
            return Ok(None);
        }
        let size = match (cursor.width as usize).checked_mul(cursor.height as usize) {
            Some(pixels) => pixels.checked_mul(CURSOR_BYTES_PER_PIXEL),
            None => None,
        };
        let expected_len: usize = match size {
            Some(expected_len) => expected_len,
            None => return Err(Failure::of("guest cursor size overflow")),
        };
        if cursor.data.len() < expected_len {
            let w = to_decimal(cursor.width as u64);
            let h = to_decimal(cursor.height as u64);
            return Err(
                Failure::new(
                    concat5(
                        "guest cursor payload is too short for ",
                        w.as_str(),
                        "x",
                        h.as_str(),
                        " pixels",
                    ),
                ),
            );
        }
        let hotspot_x = clamp(cursor.hot_x, cursor.width - 1);
        let hotspot_y = clamp(cursor.hot_y, cursor.height - 1);
        let width = cursor.width;
        let height = cursor.height;
        let mut words = cursor.data;
        words.truncate(expected_len);
        assert(words@ =~= cursor.data@.take(cursor.width * cursor.height * 4));
        Ok(
            Some(
                GuestCursor {
                    width,
                    height,
                    hotspot_x,
                    hotspot_y,
                    rgba: argb32_words_to_rgba(words.as_slice(), order),
                },
            ),
        )
    }

    /// The length of a row in bytes.
    pub fn stride(&self) -> (bytes: usize)
        requires
            self.width * 4 <= usize::MAX,
        ensures
            bytes == if self.width < 0 {
                0
            } else {
                self.width * 4
            },
    {
        if self.width < 0 {
            0
        } else {
            self.width as usize * CURSOR_BYTES_PER_PIXEL
        }
    }
}

fn clamp(value: i32, high: i32) -> (nearest: i32)
    requires
        0 <= high,
    ensures
        nearest == clamped(value as int, high as int),
{
    if value < 0 {
        0
    } else if value > high {
        high
    } else {
        value
    }
}

/// Every shape has its hotspot on one of its pixels, and as many bytes as its size asks for.
pub proof fn shapes_are_consistent(cursor: Cursor, order: ByteOrder, shape: GuestCursor)
    requires
        cursor.failure() is None,
        cursor.width > 0,
        cursor.height > 0,
        shape.width == cursor.width,
        shape.height == cursor.height,
        shape.hotspot_x == clamped(cursor.hot_x as int, cursor.width - 1),
        shape.hotspot_y == clamped(cursor.hot_y as int, cursor.height - 1),
        rgba_of_words(
            order,
            cursor.data@.take(cursor.width * cursor.height * 4),
            shape.rgba@,
        ),
    ensures
        0 <= shape.hotspot_x < shape.width,
        0 <= shape.hotspot_y < shape.height,
        shape.rgba.len() == shape.width * shape.height * 4,
{
    assert(0 <= cursor.width * cursor.height) by (nonlinear_arith)
        requires
            cursor.width > 0,
            cursor.height > 0,
    ;
}

/// What the pointer should look like over the guest display.
#[derive(Copy, Clone, Debug, PartialEq, Eq, Structural)]
pub enum PointerLook {
    /// Nothing is drawn.
    Hidden,
    /// The shape that the guest defined.
    Shape,
    /// The host's own pointer.
    Inherited,
}

/// What is known of the guest's cursor.
#[derive(Debug)]
pub struct CursorState {
    visible: bool,
    capture_hidden: bool,
    shape: Option<GuestCursor>,
}

impl CursorState {
    /// The guest wants its cursor drawn.
    pub closed spec fn spec_visible(&self) -> bool {
        self.visible
    }

    /// The pointer is captured, and the host pointer hidden.
    pub closed spec fn spec_capture_hidden(&self) -> bool {
        self.capture_hidden
    }

    /// The shape that the guest defined.
    pub closed spec fn spec_shape(&self) -> Option<GuestCursor> {
        self.shape
    }

    /// Replaces the shape.
    pub fn set_shape(&mut self, shape: Option<GuestCursor>)
        ensures
            final(self).spec_shape() == shape,
            final(self).spec_visible() == old(self).spec_visible(),
            final(self).spec_capture_hidden() == old(self).spec_capture_hidden(),
    {
        self.shape = shape;
    }

    /// Notes whether the guest wants its cursor drawn.
    pub fn set_visible(&mut self, visible: bool)
        ensures
            final(self).spec_visible() == visible,
            final(self).spec_shape() == old(self).spec_shape(),
            final(self).spec_capture_hidden() == old(self).spec_capture_hidden(),
    {
        self.visible = visible;
    }

    /// Notes whether the pointer is captured.
    pub fn set_capture_hidden(&mut self, capture_hidden: bool)
        ensures
            final(self).spec_capture_hidden() == capture_hidden,
            final(self).spec_shape() == old(self).spec_shape(),
            final(self).spec_visible() == old(self).spec_visible(),
    {
        self.capture_hidden = capture_hidden;
    }

    /// What the pointer should look like over the guest display.
    pub fn look(&self) -> (look: PointerLook)
        ensures
            look == if !self.spec_visible() || self.spec_capture_hidden() {
                PointerLook::Hidden
            } else if self.spec_shape() is Some {
                PointerLook::Shape
            } else {
                PointerLook::Inherited
            },
    {
        if !self.visible || self.capture_hidden {
            PointerLook::Hidden
        } else if self.shape.is_some() {
            PointerLook::Shape
        } else {
            PointerLook::Inherited
        }
    }

    /// The shape that the guest defined.
    pub fn shape(&self) -> (shape: Option<&GuestCursor>)
        ensures
            match (shape, self.spec_shape()) {
                (Some(found), Some(defined)) => *found == defined,
                (None, None) => true,
                _ => false,
            },
    {
        self.shape.as_ref()
    }
}

impl Default for CursorState {
    fn default() -> (state: CursorState)
        ensures
            state.spec_visible(),
            !state.spec_capture_hidden(),
            state.spec_shape() is None,
    {
        CursorState { visible: true, capture_hidden: false, shape: None }
    }
}

/// A cursor is shown exactly where its size is not negative and its bytes cover its pixels; one
/// without pixels has no shape. A shape has the cursor's size and pixels: the bytes of each native
/// ARGB word, put in the order red, green, blue, alpha. Its hotspot is the cursor's where that lies
/// on a pixel, and else the nearest pixel.
pub proof fn shapes_look_like_the_cursor(
    cursor: Cursor,
    order: ByteOrder,
    result: Result<Option<GuestCursor>, Failure>,
)
    requires
        call_ensures(GuestCursor::from_qemu, (cursor, order), result),
    ensures
        result is Ok <==> 0 <= cursor.width && 0 <= cursor.height && (cursor.width * cursor.height
            * 4 <= cursor.data@.len()),
        result matches Ok(shown) ==> (shown is Some <==> cursor.width > 0 && cursor.height > 0),
        result matches Ok(Some(shape)) ==> {
            &&& shape.width == cursor.width && shape.height == cursor.height
            &&& 0 <= cursor.hot_x < cursor.width ==> shape.hotspot_x == cursor.hot_x
            &&& cursor.hot_x < 0 ==> shape.hotspot_x == 0
            &&& cursor.hot_x >= cursor.width ==> shape.hotspot_x == cursor.width - 1
            &&& 0 <= cursor.hot_y < cursor.height ==> shape.hotspot_y == cursor.hot_y
            &&& cursor.hot_y < 0 ==> shape.hotspot_y == 0
            &&& cursor.hot_y >= cursor.height ==> shape.hotspot_y == cursor.height - 1
            &&& shape.rgba@.len() == cursor.width * cursor.height * 4
            &&& forall|i: int|
                0 <= i < cursor.width * cursor.height ==> {
                    let word = #[trigger] (i * 4);
                    let (red, green, blue, alpha) = match order {
                        ByteOrder::Little => (word + 2, word + 1, word, word + 3),
                        ByteOrder::Big => (word + 1, word + 2, word + 3, word),
                    };
                    &&& shape.rgba@[word] == cursor.data@[red]
                    &&& shape.rgba@[word + 1] == cursor.data@[green]
                    &&& shape.rgba@[word + 2] == cursor.data@[blue]
                    &&& shape.rgba@[word + 3] == cursor.data@[alpha]
                }
        },
{
    assert(cursor.data@.len() == cursor.data.len());
    let pixels = cursor.width * cursor.height;
    assert(cursor.width == 0 || cursor.height == 0 ==> pixels == 0) by (nonlinear_arith)
        requires
            pixels == cursor.width * cursor.height,
    ;
    assert(cursor.width > 0 && cursor.height > 0 ==> pixels > 0) by (nonlinear_arith)
        requires
            pixels == cursor.width * cursor.height,
    ;
    if let Ok(Some(shape)) = result {
        let words = cursor.data@.take(pixels * 4);
        assert(words.len() == pixels * 4);
        assert(words.len() / 4 == pixels);
        assert forall|i: int| 0 <= i < pixels implies {
            let word = #[trigger] (i * 4);
            let (red, green, blue, alpha) = match order {
                ByteOrder::Little => (word + 2, word + 1, word, word + 3),
                ByteOrder::Big => (word + 1, word + 2, word + 3, word),
            };
            &&& shape.rgba@[word] == cursor.data@[red]
            &&& shape.rgba@[word + 1] == cursor.data@[green]
            &&& shape.rgba@[word + 2] == cursor.data@[blue]
            &&& shape.rgba@[word + 3] == cursor.data@[alpha]
        } by {
            let found = rgba_at(shape.rgba@, i * 4);
            assert(found == PixelFormat::A8r8g8b8.decoded(order, words, i * 4));
        }
    }
}

/// The pointer is hidden exactly where it is captured or the guest hides it; else it has the guest's
/// shape where there is one.
pub proof fn pointers_look_as_the_guest_asks(state: CursorState, look: PointerLook)
    requires
        call_ensures(CursorState::look, (&state,), look),
    ensures
        look is Hidden <==> state.spec_capture_hidden() || !state.spec_visible(),
        look is Shape ==> state.spec_shape() is Some,
        look is Inherited ==> state.spec_shape() is None,
{
}

}
