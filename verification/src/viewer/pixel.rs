//! Pixel formats of guest framebuffers and their conversion to RGBA.

use vstd::prelude::*;

use crate::error::Failure;
use crate::text::concat3;
use crate::text::number::hex;
use crate::text::number::to_hex;

verus! {

/// The pixman code of a 32-bit pixel with alpha, blue, green and red, from the top byte down.
pub const PIXMAN_A8B8G8R8: u32 = 0x2003_8888;

/// The pixman code of a 32-bit pixel with alpha, red, green and blue, from the top byte down.
pub const PIXMAN_A8R8G8B8: u32 = 0x2002_8888;

/// The pixman code of a 32-bit pixel with blue, green, red and alpha, from the top byte down.
pub const PIXMAN_B8G8R8A8: u32 = 0x2008_8888;

/// The pixman code of a 32-bit pixel with blue, green, red and an unused byte, from the top byte
/// down.
pub const PIXMAN_B8G8R8X8: u32 = 0x2008_0888;

/// The pixman code of a 32-bit pixel with red, green, blue and alpha, from the top byte down.
pub const PIXMAN_R8G8B8A8: u32 = 0x2009_8888;

/// The pixman code of a 32-bit pixel with red, green, blue and an unused byte, from the top byte
/// down.
pub const PIXMAN_R8G8B8X8: u32 = 0x2009_0888;

/// The pixman code of a 32-bit pixel with an unused byte, blue, green and red, from the top byte
/// down.
pub const PIXMAN_X8B8G8R8: u32 = 0x2003_0888;

/// The pixman code of a 32-bit pixel with an unused byte, red, green and blue, from the top byte
/// down.
pub const PIXMAN_X8R8G8B8: u32 = 0x2002_0888;

/// The size of one RGBA pixel, and of one pixel of each supported format.
pub const RGBA_BYTES_PER_PIXEL: usize = 4;

/// Which byte of a word a machine stores first.
#[derive(Copy, Clone, Debug, PartialEq, Eq, Structural)]
pub enum ByteOrder {
    Little,
    Big,
}

/// One pixel as separate channels.
#[derive(Copy, Clone, Debug, PartialEq, Eq, Structural)]
pub struct Rgba {
    pub red: u8,
    pub green: u8,
    pub blue: u8,
    pub alpha: u8,
}

/// The pixel whose channels stand at `at`, red first.
pub open spec fn rgba_at(bytes: Seq<u8>, at: int) -> Rgba {
    Rgba { red: bytes[at], green: bytes[at + 1], blue: bytes[at + 2], alpha: bytes[at + 3] }
}

/// The byte of the 32-bit word at `at` that has `rank` more significant bytes above it.
pub open spec fn word_byte(order: ByteOrder, bytes: Seq<u8>, at: int, rank: int) -> u8 {
    match order {
        ByteOrder::Little => bytes[at + 3 - rank],
        ByteOrder::Big => bytes[at + rank],
    }
}

/// A supported pixel format. Each packs the channels that it names into a 32-bit word, the first
/// named in the most significant byte; `x` is an unused byte.
#[derive(Copy, Clone, Debug, PartialEq, Eq, Structural)]
pub enum PixelFormat {
    A8b8g8r8,
    A8r8g8b8,
    B8g8r8a8,
    B8g8r8x8,
    R8g8b8a8,
    R8g8b8x8,
    X8b8g8r8,
    X8r8g8b8,
}

impl PixelFormat {
    /// The pixman code of the format.
    pub open spec fn code(self) -> u32 {
        match self {
            PixelFormat::A8b8g8r8 => PIXMAN_A8B8G8R8,
            PixelFormat::A8r8g8b8 => PIXMAN_A8R8G8B8,
            PixelFormat::B8g8r8a8 => PIXMAN_B8G8R8A8,
            PixelFormat::B8g8r8x8 => PIXMAN_B8G8R8X8,
            PixelFormat::R8g8b8a8 => PIXMAN_R8G8B8A8,
            PixelFormat::R8g8b8x8 => PIXMAN_R8G8B8X8,
            PixelFormat::X8b8g8r8 => PIXMAN_X8B8G8R8,
            PixelFormat::X8r8g8b8 => PIXMAN_X8R8G8B8,
        }
    }

    /// The pixel that the word at `at` encodes. A format without alpha gives opaque pixels.
    pub open spec fn decoded(self, order: ByteOrder, bytes: Seq<u8>, at: int) -> Rgba {
        let byte = |rank: int| word_byte(order, bytes, at, rank);
        match self {
            PixelFormat::A8b8g8r8 => (Rgba {
                alpha: byte(0),
                blue: byte(1),
                green: byte(2),
                red: byte(3),
            }),
            PixelFormat::A8r8g8b8 => (Rgba {
                alpha: byte(0),
                red: byte(1),
                green: byte(2),
                blue: byte(3),
            }),
            PixelFormat::B8g8r8a8 => (Rgba {
                blue: byte(0),
                green: byte(1),
                red: byte(2),
                alpha: byte(3),
            }),
            PixelFormat::B8g8r8x8 => (Rgba {
                blue: byte(0),
                green: byte(1),
                red: byte(2),
                alpha: u8::MAX,
            }),
            PixelFormat::R8g8b8a8 => (Rgba {
                red: byte(0),
                green: byte(1),
                blue: byte(2),
                alpha: byte(3),
            }),
            PixelFormat::R8g8b8x8 => (Rgba {
                red: byte(0),
                green: byte(1),
                blue: byte(2),
                alpha: u8::MAX,
            }),
            PixelFormat::X8b8g8r8 => (Rgba {
                blue: byte(1),
                green: byte(2),
                red: byte(3),
                alpha: u8::MAX,
            }),
            PixelFormat::X8r8g8b8 => (Rgba {
                red: byte(1),
                green: byte(2),
                blue: byte(3),
                alpha: u8::MAX,
            }),
        }
    }

    /// The pixman code of the format.
    pub fn pixman_code(self) -> (code: u32)
        ensures
            code == self.code(),
    {
        match self {
            PixelFormat::A8b8g8r8 => PIXMAN_A8B8G8R8,
            PixelFormat::A8r8g8b8 => PIXMAN_A8R8G8B8,
            PixelFormat::B8g8r8a8 => PIXMAN_B8G8R8A8,
            PixelFormat::B8g8r8x8 => PIXMAN_B8G8R8X8,
            PixelFormat::R8g8b8a8 => PIXMAN_R8G8B8A8,
            PixelFormat::R8g8b8x8 => PIXMAN_R8G8B8X8,
            PixelFormat::X8b8g8r8 => PIXMAN_X8B8G8R8,
            PixelFormat::X8r8g8b8 => PIXMAN_X8R8G8B8,
        }
    }

    /// The format with the given pixman code.
    pub fn try_from(value: u32) -> (result: Result<PixelFormat, Failure>)
        ensures
            match result {
                Ok(format) => format.code() == value,
                Err(failure) => !supported(value) && failure@ == seq![unsupported_text(value)],
            },
    {
        if value == PIXMAN_A8B8G8R8 {
            Ok(PixelFormat::A8b8g8r8)
        } else if value == PIXMAN_A8R8G8B8 {
            Ok(PixelFormat::A8r8g8b8)
        } else if value == PIXMAN_B8G8R8A8 {
            Ok(PixelFormat::B8g8r8a8)
        } else if value == PIXMAN_B8G8R8X8 {
            Ok(PixelFormat::B8g8r8x8)
        } else if value == PIXMAN_R8G8B8A8 {
            Ok(PixelFormat::R8g8b8a8)
        } else if value == PIXMAN_R8G8B8X8 {
            Ok(PixelFormat::R8g8b8x8)
        } else if value == PIXMAN_X8B8G8R8 {
            Ok(PixelFormat::X8b8g8r8)
        } else if value == PIXMAN_X8R8G8B8 {
            Ok(PixelFormat::X8r8g8b8)
        } else {
            let code = to_hex(value as u64);
            Err(Failure::new(concat3("pixel format ", code.as_str(), " is not supported yet")))
        }
    }

    /// The pixel that the word at `at` encodes.
    pub fn pixel_to_rgba(self, order: ByteOrder, bytes: &[u8], at: usize) -> (pixel: Rgba)
        requires
            at + RGBA_BYTES_PER_PIXEL <= bytes@.len(),
        ensures
            pixel == self.decoded(order, bytes@, at as int),
    {
        assert(bytes@.len() == bytes.len());
        let (b0, b1, b2, b3) = match order {
            ByteOrder::Little => (bytes[at + 3], bytes[at + 2], bytes[at + 1], bytes[at]),
            ByteOrder::Big => (bytes[at], bytes[at + 1], bytes[at + 2], bytes[at + 3]),
        };
        match self {
            PixelFormat::A8b8g8r8 => Rgba { alpha: b0, blue: b1, green: b2, red: b3 },
            PixelFormat::A8r8g8b8 => Rgba { alpha: b0, red: b1, green: b2, blue: b3 },
            PixelFormat::B8g8r8a8 => Rgba { blue: b0, green: b1, red: b2, alpha: b3 },
            PixelFormat::B8g8r8x8 => Rgba { blue: b0, green: b1, red: b2, alpha: u8::MAX },
            PixelFormat::R8g8b8a8 => Rgba { red: b0, green: b1, blue: b2, alpha: b3 },
            PixelFormat::R8g8b8x8 => Rgba { red: b0, green: b1, blue: b2, alpha: u8::MAX },
            PixelFormat::X8b8g8r8 => Rgba { blue: b1, green: b2, red: b3, alpha: u8::MAX },
            PixelFormat::X8r8g8b8 => Rgba { red: b1, green: b2, blue: b3, alpha: u8::MAX },
        }
    }
}

/// The code belongs to a supported format.
pub open spec fn supported(code: u32) -> bool {
    exists|format: PixelFormat| format.code() == code
}

/// The format with the given code.
pub open spec fn format_of(code: u32) -> PixelFormat {
    choose|format: PixelFormat| format.code() == code
}

/// The message for a code that belongs to no supported format.
pub open spec fn unsupported_text(code: u32) -> Seq<char> {
    "pixel format "@ + hex(code as nat) + " is not supported yet"@
}

/// Each format has a code of its own.
pub proof fn codes_are_distinct(left: PixelFormat, right: PixelFormat)
    requires
        left.code() == right.code(),
    ensures
        left == right,
{
}

/// A format without an alpha channel decodes to opaque pixels.
pub proof fn formats_without_alpha_are_opaque(
    format: PixelFormat,
    order: ByteOrder,
    bytes: Seq<u8>,
    at: int,
)
    requires
        matches!(
            format,
            PixelFormat::B8g8r8x8 | PixelFormat::R8g8b8x8 | PixelFormat::X8b8g8r8
                | PixelFormat::X8r8g8b8
        ),
    ensures
        format.decoded(order, bytes, at).alpha == 255,
{
}

/// The number that four bytes make up in the given order.
pub open spec fn word_value(order: ByteOrder, bytes: Seq<u8>, at: int) -> int {
    match order {
        ByteOrder::Little => bytes[at] + 0x100 * bytes[at + 1] + 0x1_0000 * bytes[at + 2]
            + 0x100_0000 * bytes[at + 3],
        ByteOrder::Big => 0x100_0000 * bytes[at] + 0x1_0000 * bytes[at + 1] + 0x100 * bytes[at + 2]
            + bytes[at + 3],
    }
}

/// A format's name lists the channels of a word from its highest byte to its lowest: put together
/// in that order, the channels of a pixel make up the word that it was read from. A byte that is
/// called x may hold anything.
pub proof fn words_are_made_of_channels(
    format: PixelFormat,
    order: ByteOrder,
    bytes: &[u8],
    at: usize,
    pixel: Rgba,
)
    requires
        at + 4 <= bytes@.len(),
        call_ensures(PixelFormat::pixel_to_rgba, (format, order, bytes, at), pixel),
    ensures
        ({
            let word = word_value(order, bytes@, at as int);
            let (red, green, blue) = (pixel.red as int, pixel.green as int, pixel.blue as int);
            let alpha = pixel.alpha as int;
            match format {
                PixelFormat::A8r8g8b8 => word == 0x100_0000 * alpha + 0x1_0000 * red + 0x100 * green
                    + blue,
                PixelFormat::A8b8g8r8 => word == 0x100_0000 * alpha + 0x1_0000 * blue + 0x100
                    * green + red,
                PixelFormat::R8g8b8a8 => word == 0x100_0000 * red + 0x1_0000 * green + 0x100 * blue
                    + alpha,
                PixelFormat::B8g8r8a8 => word == 0x100_0000 * blue + 0x1_0000 * green + 0x100 * red
                    + alpha,
                PixelFormat::X8r8g8b8 => alpha == 255 && word % 0x100_0000 == 0x1_0000 * red + 0x100
                    * green + blue,
                PixelFormat::X8b8g8r8 => alpha == 255 && word % 0x100_0000 == 0x1_0000 * blue
                    + 0x100 * green + red,
                PixelFormat::R8g8b8x8 => alpha == 255 && word / 0x100 == 0x1_0000 * red + 0x100
                    * green + blue,
                PixelFormat::B8g8r8x8 => alpha == 255 && word / 0x100 == 0x1_0000 * blue + 0x100
                    * green + red,
            }
        }),
{
}

/// A code is understood exactly where it says 32 bits a pixel, eight for each colour, in one of
/// four orders and with eight or no bits of alpha; the format has the channels that it says.
pub proof fn codes_say_the_format(value: u32, result: Result<PixelFormat, Failure>)
    requires
        call_ensures(PixelFormat::try_from, (value,), result),
    ensures
        result is Ok <==> {
            ||| value == 0x2002_8888
            ||| value == 0x2002_0888
            ||| value == 0x2003_8888
            ||| value == 0x2003_0888
            ||| value == 0x2008_8888
            ||| value == 0x2008_0888
            ||| value == 0x2009_8888
            ||| value == 0x2009_0888
        },
        result matches Ok(format) ==> {
            let kind = value / 0x1_0000 % 0x100;
            let has_alpha = value / 0x1000 % 0x10 == 8;
            &&& kind == 2 <==> format is A8r8g8b8 || format is X8r8g8b8
            &&& kind == 3 <==> format is A8b8g8r8 || format is X8b8g8r8
            &&& kind == 8 <==> format is B8g8r8a8 || format is B8g8r8x8
            &&& kind == 9 <==> format is R8g8b8a8 || format is R8g8b8x8
            &&& has_alpha <==> format is A8r8g8b8 || format is A8b8g8r8 || format is B8g8r8a8
                || format is R8g8b8a8
        },
{
    if result is Err {
        assert(PixelFormat::A8r8g8b8.code() != value);
        assert(PixelFormat::X8r8g8b8.code() != value);
        assert(PixelFormat::A8b8g8r8.code() != value);
        assert(PixelFormat::X8b8g8r8.code() != value);
        assert(PixelFormat::B8g8r8a8.code() != value);
        assert(PixelFormat::B8g8r8x8.code() != value);
        assert(PixelFormat::R8g8b8a8.code() != value);
        assert(PixelFormat::R8g8b8x8.code() != value);
    }
}

}
