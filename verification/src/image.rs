use vstd::arithmetic::div_mod::{
    lemma_fundamental_div_mod,
    lemma_fundamental_div_mod_converse,
    lemma_multiply_divide_lt,
};
use vstd::prelude::*;
use crate::error::DecodeError;

verus! {

/// The layout that the pixels of an image had before they were converted.
#[derive(Clone, Copy, PartialEq, Eq, Structural, Debug)]
pub enum PixelFormat {
    /// Red, green, blue, alpha: a byte each.
    Rgba,
    /// Red, green, blue and a padding byte.
    Rgbx,
    /// Red, green, blue: a byte each.
    Rgb,
    /// Blue, green, red, alpha: a byte each.
    Bgra,
    /// Blue, green, red and a padding byte.
    Bgrx,
    /// Blue, green, red: a byte each.
    Bgr,
    /// 16 bits: red in the low five, then green, then blue, alpha in the top bit.
    Rgba16,
    /// 16 bits: red in the low five, six of green, five of blue.
    Rgb16,
    /// 16 bits: four each of red, green, blue, alpha, red lowest.
    Rgba4444,
    /// 16 bits: blue in the low five, then green, then red, alpha in the top bit.
    Bgra16,
    /// 16 bits: blue in the low five, six of green, five of red.
    Bgr16,
    /// 16 bits: four each of blue, green, red, alpha, blue lowest.
    Bgra4444,
    /// Eight-bit indices into a palette of `Rgba` entries.
    RgbaClut8,
    /// Eight-bit indices into a palette of `Rgbx` entries.
    RgbxClut8,
    /// Eight-bit indices into a palette of `Rgb` entries.
    RgbClut8,
    /// Eight-bit indices into a palette of `Bgra` entries.
    BgraClut8,
    /// Eight-bit indices into a palette of `Bgrx` entries.
    BgrxClut8,
    /// Eight-bit indices into a palette of `Bgr` entries.
    BgrClut8,
    /// Four-bit indices into a palette of `Rgba` entries.
    RgbaClut4,
    /// Four-bit indices into a palette of `Rgbx` entries.
    RgbxClut4,
    /// Four-bit indices into a palette of `Rgb` entries.
    RgbClut4,
    /// Four-bit indices into a palette of `Bgra` entries.
    BgraClut4,
    /// Four-bit indices into a palette of `Bgrx` entries.
    BgrxClut4,
    /// Four-bit indices into a palette of `Bgr` entries.
    BgrClut4,
    /// Four-bit indices into a palette of 15-bit colors.
    PsxClut4,
    /// Eight-bit indices into a palette of 15-bit colors.
    PsxClut8,
    /// Eight-bit indices into a codebook of 2 by 2 blocks of `Bgra16` texels.
    Bgra5551Vq8,
    /// Eight-bit indices into a codebook of 2 by 2 blocks of `Bgr16` texels.
    Bgr565Vq8,
    /// Eight-bit indices into a codebook of 2 by 2 blocks of `Bgra4444` texels.
    Bgra4444Vq8,
}

impl PixelFormat {
    /// The number of bits that one pixel takes in this layout.
    pub open spec fn bits_per_pixel(self) -> int {
        match self {
            PixelFormat::Rgba => 32,
            PixelFormat::Rgbx => 32,
            PixelFormat::Rgb => 24,
            PixelFormat::Bgra => 32,
            PixelFormat::Bgrx => 32,
            PixelFormat::Bgr => 24,
            PixelFormat::Rgba16 => 16,
            PixelFormat::Rgb16 => 16,
            PixelFormat::Rgba4444 => 16,
            PixelFormat::Bgra16 => 16,
            PixelFormat::Bgr16 => 16,
            PixelFormat::Bgra4444 => 16,
            PixelFormat::RgbaClut8 => 8,
            PixelFormat::RgbxClut8 => 8,
            PixelFormat::RgbClut8 => 8,
            PixelFormat::BgraClut8 => 8,
            PixelFormat::BgrxClut8 => 8,
            PixelFormat::BgrClut8 => 8,
            PixelFormat::RgbaClut4 => 4,
            PixelFormat::RgbxClut4 => 4,
            PixelFormat::RgbClut4 => 4,
            PixelFormat::BgraClut4 => 4,
            PixelFormat::BgrxClut4 => 4,
            PixelFormat::BgrClut4 => 4,
            PixelFormat::PsxClut4 => 4,
            PixelFormat::PsxClut8 => 8,
            PixelFormat::Bgra5551Vq8 => 8,
            PixelFormat::Bgr565Vq8 => 8,
            PixelFormat::Bgra4444Vq8 => 8,
        }
    }

    /// The number of bits that one pixel takes in this layout.
    pub fn bpp(self) -> (r: usize)
        ensures
            r == self.bits_per_pixel(),
    {
        match self {
            PixelFormat::Rgba => 32,
            PixelFormat::Rgbx => 32,
            PixelFormat::Rgb => 24,
            PixelFormat::Bgra => 32,
            PixelFormat::Bgrx => 32,
            PixelFormat::Bgr => 24,
            PixelFormat::Rgba16 => 16,
            PixelFormat::Rgb16 => 16,
            PixelFormat::Rgba4444 => 16,
            PixelFormat::Bgra16 => 16,
            PixelFormat::Bgr16 => 16,
            PixelFormat::Bgra4444 => 16,
            PixelFormat::RgbaClut8 => 8,
            PixelFormat::RgbxClut8 => 8,
            PixelFormat::RgbClut8 => 8,
            PixelFormat::BgraClut8 => 8,
            PixelFormat::BgrxClut8 => 8,
            PixelFormat::BgrClut8 => 8,
            PixelFormat::RgbaClut4 => 4,
            PixelFormat::RgbxClut4 => 4,
            PixelFormat::RgbClut4 => 4,
            PixelFormat::BgraClut4 => 4,
            PixelFormat::BgrxClut4 => 4,
            PixelFormat::BgrClut4 => 4,
            PixelFormat::PsxClut4 => 4,
            PixelFormat::PsxClut8 => 8,
            PixelFormat::Bgra5551Vq8 => 8,
            PixelFormat::Bgr565Vq8 => 8,
            PixelFormat::Bgra4444Vq8 => 8,
        }
    }

    /// The name under which the layout is shown.
    pub open spec fn name_text(self) -> Seq<char> {
        match self {
            PixelFormat::Rgba => "RGBA"@,
            PixelFormat::Rgbx => "RGBX"@,
            PixelFormat::Rgb => "RGB"@,
            PixelFormat::Bgra => "BGRA"@,
            PixelFormat::Bgrx => "BGRX"@,
            PixelFormat::Bgr => "BGR"@,
            PixelFormat::Rgba16 => "RGBA5551"@,
            PixelFormat::Rgb16 => "RGB565"@,
            PixelFormat::Rgba4444 => "RGBA4444"@,
            PixelFormat::Bgra16 => "BGRA5551"@,
            PixelFormat::Bgr16 => "BGR565"@,
            PixelFormat::Bgra4444 => "BGRA4444"@,
            PixelFormat::RgbaClut8 => "RGBA clut8"@,
            PixelFormat::RgbxClut8 => "RGBX clut8"@,
            PixelFormat::RgbClut8 => "RGB clut8"@,
            PixelFormat::BgraClut8 => "BGRA clut8"@,
            PixelFormat::BgrxClut8 => "BGRX clut8"@,
            PixelFormat::BgrClut8 => "BGR clut8"@,
            PixelFormat::RgbaClut4 => "RGBA clut4"@,
            PixelFormat::RgbxClut4 => "RGBX clut4"@,
            PixelFormat::RgbClut4 => "RGB clut4"@,
            PixelFormat::BgraClut4 => "BGRA clut4"@,
            PixelFormat::BgrxClut4 => "BGRX clut4"@,
            PixelFormat::BgrClut4 => "BGR clut4"@,
            PixelFormat::PsxClut4 => "PSX clut4"@,
            PixelFormat::PsxClut8 => "PSX clut8"@,
            PixelFormat::Bgra5551Vq8 => "BGRA5551 VQ8"@,
            PixelFormat::Bgr565Vq8 => "BGR565 VQ8"@,
            PixelFormat::Bgra4444Vq8 => "BGRA4444 VQ8"@,
        }
    }

    /// The name under which the layout is shown.
    pub fn name(self) -> (r: &'static str)
        ensures
            r@ == self.name_text(),
    {
        match self {
            PixelFormat::Rgba => "RGBA",
            PixelFormat::Rgbx => "RGBX",
            PixelFormat::Rgb => "RGB",
            PixelFormat::Bgra => "BGRA",
            PixelFormat::Bgrx => "BGRX",
            PixelFormat::Bgr => "BGR",
            PixelFormat::Rgba16 => "RGBA5551",
            PixelFormat::Rgb16 => "RGB565",
            PixelFormat::Rgba4444 => "RGBA4444",
            PixelFormat::Bgra16 => "BGRA5551",
            PixelFormat::Bgr16 => "BGR565",
            PixelFormat::Bgra4444 => "BGRA4444",
            PixelFormat::RgbaClut8 => "RGBA clut8",
            PixelFormat::RgbxClut8 => "RGBX clut8",
            PixelFormat::RgbClut8 => "RGB clut8",
            PixelFormat::BgraClut8 => "BGRA clut8",
            PixelFormat::BgrxClut8 => "BGRX clut8",
            PixelFormat::BgrClut8 => "BGR clut8",
            PixelFormat::RgbaClut4 => "RGBA clut4",
            PixelFormat::RgbxClut4 => "RGBX clut4",
            PixelFormat::RgbClut4 => "RGB clut4",
            PixelFormat::BgraClut4 => "BGRA clut4",
            PixelFormat::BgrxClut4 => "BGRX clut4",
            PixelFormat::BgrClut4 => "BGR clut4",
            PixelFormat::PsxClut4 => "PSX clut4",
            PixelFormat::PsxClut8 => "PSX clut8",
            PixelFormat::Bgra5551Vq8 => "BGRA5551 VQ8",
            PixelFormat::Bgr565Vq8 => "BGR565 VQ8",
            PixelFormat::Bgra4444Vq8 => "BGRA4444 VQ8",
        }
    }
}

/// One pixel: red, green, blue and alpha, eight bits each.
#[derive(Clone, Copy, PartialEq, Eq, Structural, Debug, Default)]
pub struct Pixel {
    pub r: u8,
    pub g: u8,
    pub b: u8,
    pub a: u8,
}

/// The pixel that is all zero: black and transparent.
pub open spec fn clear_pixel() -> Pixel {
    Pixel { r: 0, g: 0, b: 0, a: 0 }
}

/// A rectangle of pixels, row by row, with the layout they came from.
#[derive(Clone, Debug, PartialEq, Eq)]
pub struct Frame {
    pub width: u32,
    pub height: u32,
    pub og_fmt: PixelFormat,
    pub pixels: Vec<Pixel>,
}

/// Frames in the order in which a file holds them.
#[derive(Clone, Debug, PartialEq, Eq)]
pub struct Image {
    pub frames: Vec<Frame>,
}

/// What a frame is, with a sequence for its pixels.
pub struct FrameView {
    pub width: u32,
    pub height: u32,
    pub og_fmt: PixelFormat,
    pub pixels: Seq<Pixel>,
}

/// What an image is, with a sequence of frame views.
pub struct ImageView {
    pub frames: Seq<FrameView>,
}

impl View for Frame {
    type V = FrameView;

    open spec fn view(&self) -> FrameView {
        FrameView {
            width: self.width,
            height: self.height,
            og_fmt: self.og_fmt,
            pixels: self.pixels@,
        }
    }
}

/// The views of frames.
pub open spec fn frame_views(frames: Seq<Frame>) -> Seq<FrameView> {
    Seq::new(frames.len(), |i: int| frames[i]@)
}

impl View for Image {
    type V = ImageView;

    open spec fn view(&self) -> ImageView {
        ImageView { frames: frame_views(self.frames@) }
    }
}

impl FrameView {
    /// Whether there is exactly one pixel for each position.
    pub open spec fn wf(self) -> bool {
        self.pixels.len() == self.width * self.height
    }
}

/// Whether each of the frames has exactly one pixel for each position.
pub open spec fn all_wf(frames: Seq<Frame>) -> bool {
    forall|i: int| 0 <= i < frames.len() ==> (#[trigger] frames[i]).wf()
}

impl Image {
    /// Whether each frame has exactly one pixel for each position.
    pub open spec fn wf(self) -> bool {
        all_wf(self.frames@)
    }
}

/// The view of what an image decoder returned.
pub open spec fn image_outcome(r: Result<Image, DecodeError>) -> Result<ImageView, DecodeError> {
    match r {
        Ok(image) => Ok(image@),
        Err(e) => Err(e),
    }
}

/// A four-bit channel widened to eight bits: the four bits, twice.
pub open spec fn widen_4(x: u8) -> u8 {
    x << 4 | (x & 0xF)
}

/// A five-bit channel widened to eight bits: the five bits, then the lowest bit three times.
pub open spec fn widen_5(x: u8) -> u8 {
    x << 3 | (x & 1) << 2 | (x & 1) << 1 | (x & 1)
}

/// A six-bit channel widened to eight bits: the six bits, then the lowest bit twice.
pub open spec fn widen_6(x: u8) -> u8 {
    x << 2 | (x & 1) << 1 | (x & 1)
}

/// Widens a four-bit channel to eight bits.
pub fn bits_4_to_8(x: u8) -> (r: u8)
    ensures
        r == widen_4(x),
{
    x << 4 | (x & 0xF)
}

/// Widens a five-bit channel to eight bits.
pub fn bits_5_to_8(x: u8) -> (r: u8)
    ensures
        r == widen_5(x),
{
    x << 3 | (x & 1) << 2 | (x & 1) << 1 | (x & 1)
}

/// Widens a six-bit channel to eight bits.
pub fn bits_6_to_8(x: u8) -> (r: u8)
    ensures
        r == widen_6(x),
{
    x << 2 | (x & 1) << 1 | (x & 1)
}

/// The pixel of four bytes at `at`: three colors and, where `alpha`, the fourth byte
/// as alpha. With `swap` the first byte is blue and the third red.
pub open spec fn pixel_of_bytes(s: Seq<u8>, at: int, swap: bool, alpha: bool) -> Pixel {
    Pixel {
        r: if swap {
            s[at + 2]
        } else {
            s[at]
        },
        g: s[at + 1],
        b: if swap {
            s[at]
        } else {
            s[at + 2]
        },
        a: if alpha {
            s[at + 3]
        } else {
            255
        },
    }
}

/// The same pixel with red and blue exchanged where `swap`.
pub open spec fn swapped(p: Pixel, swap: bool) -> Pixel {
    if swap {
        Pixel { r: p.b, g: p.g, b: p.r, a: p.a }
    } else {
        p
    }
}

/// The pixel of a 16-bit word, low byte `lo`: five bits each of three colors, the
/// first in the lowest bits, the third in bits 10 to 14, and the top bit as alpha.
pub open spec fn pixel_of_5551(lo: u8, hi: u8) -> Pixel {
    Pixel {
        r: widen_5(lo),
        g: widen_5(lo >> 5 | hi << 3),
        b: widen_5((hi >> 2) & 0x1F),
        a: if hi & 0x80 != 0 {
            0xFF
        } else {
            0
        },
    }
}

/// The pixel of a 16-bit word, low byte `lo`: five, six and five bits of three colors,
/// the first in the lowest bits; opaque.
pub open spec fn pixel_of_565(lo: u8, hi: u8) -> Pixel {
    Pixel { r: widen_5(lo), g: widen_6(lo >> 5 | hi << 3), b: widen_5(hi >> 3), a: 0xFF }
}

/// The pixel of a 16-bit word, low byte `lo`: four bits each of three colors and alpha,
/// the first color in the lowest bits.
pub open spec fn pixel_of_4444(lo: u8, hi: u8) -> Pixel {
    Pixel { r: widen_4(lo), g: widen_4(lo >> 4), b: widen_4(hi), a: widen_4(hi >> 4) }
}

impl PixelFormat {
    /// Whether the pixels are indices into a palette of color entries.
    pub open spec fn is_palettized(self) -> bool {
        match self {
            PixelFormat::RgbaClut8
            | PixelFormat::RgbxClut8
            | PixelFormat::RgbClut8
            | PixelFormat::BgraClut8
            | PixelFormat::BgrxClut8
            | PixelFormat::BgrClut8
            | PixelFormat::RgbaClut4
            | PixelFormat::RgbxClut4
            | PixelFormat::RgbClut4
            | PixelFormat::BgraClut4
            | PixelFormat::BgrxClut4
            | PixelFormat::BgrClut4 => true,
            _ => false,
        }
    }

    /// Whether frames can be made from raw data in this layout. The layouts that stand
    /// for a palette of 15-bit colors or for a codebook only label frames.
    pub open spec fn is_convertible(self) -> bool {
        match self {
            PixelFormat::PsxClut4
            | PixelFormat::PsxClut8
            | PixelFormat::Bgra5551Vq8
            | PixelFormat::Bgr565Vq8
            | PixelFormat::Bgra4444Vq8 => false,
            _ => true,
        }
    }

    /// Whether blue comes before red.
    pub open spec fn is_bgr(self) -> bool {
        match self {
            PixelFormat::Bgra
            | PixelFormat::Bgrx
            | PixelFormat::Bgr
            | PixelFormat::Bgra16
            | PixelFormat::Bgr16
            | PixelFormat::Bgra4444
            | PixelFormat::BgraClut8
            | PixelFormat::BgrxClut8
            | PixelFormat::BgrClut8
            | PixelFormat::BgraClut4
            | PixelFormat::BgrxClut4
            | PixelFormat::BgrClut4 => true,
            _ => false,
        }
    }

    /// Whether the data, or the palette, carries alpha.
    pub open spec fn has_alpha(self) -> bool {
        match self {
            PixelFormat::Rgba
            | PixelFormat::Bgra
            | PixelFormat::RgbaClut8
            | PixelFormat::BgraClut8
            | PixelFormat::RgbaClut4
            | PixelFormat::BgraClut4 => true,
            _ => false,
        }
    }

    /// The distance in bytes from one palette entry to the next.
    pub open spec fn palette_stride(self) -> int {
        match self {
            PixelFormat::RgbClut8
            | PixelFormat::BgrClut8
            | PixelFormat::RgbClut4
            | PixelFormat::BgrClut4 => 3,
            _ => 4,
        }
    }

    /// The number of bytes that are read of one palette entry.
    pub open spec fn palette_reach(self) -> int {
        if self.has_alpha() {
            4
        } else {
            3
        }
    }
}

/// The number of bytes of raw data that a frame of that size is made from. Where a
/// byte holds two pixels and their number is odd, the last pixel takes the low half
/// of a byte of its own.
pub open spec fn source_len(fmt: PixelFormat, width: int, height: int) -> int {
    let bits = fmt.bits_per_pixel();
    if bits == 32 {
        width * height * 4
    } else if bits == 24 {
        width * height * 3
    } else if bits == 16 {
        width * height * 2
    } else if bits == 8 {
        width * height
    } else {
        (width * height + 1) / 2
    }
}

/// The palette index of pixel number `i`. Where a byte holds two, the first is in its low half.
pub open spec fn palette_index(fmt: PixelFormat, buf: Seq<u8>, i: int) -> int {
    if fmt.bits_per_pixel() == 4 {
        if i % 2 == 0 {
            (buf[i / 2] & 0xF) as int
        } else {
            (buf[i / 2] >> 4) as int
        }
    } else {
        buf[i] as int
    }
}

/// Whether the palette holds the entry that pixel number `i` names.
pub open spec fn palette_covers(fmt: PixelFormat, clut: Seq<u8>, buf: Seq<u8>, i: int) -> bool {
    palette_index(fmt, buf, i) * fmt.palette_stride() + fmt.palette_reach() <= clut.len()
}

/// Pixel number `i` of raw data in the layout `fmt`.
pub open spec fn pixel_at(fmt: PixelFormat, clut: Seq<u8>, buf: Seq<u8>, i: int) -> Pixel {
    if fmt.is_palettized() {
        pixel_of_bytes(
            clut,
            palette_index(fmt, buf, i) * fmt.palette_stride(),
            fmt.is_bgr(),
            fmt.has_alpha(),
        )
    } else {
        match fmt {
            PixelFormat::Rgba | PixelFormat::Rgbx | PixelFormat::Bgra | PixelFormat::Bgrx => {
                pixel_of_bytes(buf, 4 * i, fmt.is_bgr(), fmt.has_alpha())
            },
            PixelFormat::Rgb | PixelFormat::Bgr => pixel_of_bytes(buf, 3 * i, fmt.is_bgr(), false),
            PixelFormat::Rgba16 | PixelFormat::Bgra16 => swapped(
                pixel_of_5551(buf[2 * i], buf[2 * i + 1]),
                fmt.is_bgr(),
            ),
            PixelFormat::Rgb16 | PixelFormat::Bgr16 => swapped(
                pixel_of_565(buf[2 * i], buf[2 * i + 1]),
                fmt.is_bgr(),
            ),
            _ => swapped(pixel_of_4444(buf[2 * i], buf[2 * i + 1]), fmt.is_bgr()),
        }
    }
}

/// The pixels that raw data for a frame of that size gives.
pub open spec fn decoded_pixels(
    fmt: PixelFormat,
    width: int,
    height: int,
    clut: Seq<u8>,
    buf: Seq<u8>,
) -> Seq<Pixel> {
    Seq::new((width * height) as nat, |i: int| pixel_at(fmt, clut, buf, i))
}

/// Whether a frame of that size can be made from the raw data: the layout is one of
/// raw data, there is enough of it, the pixels can be counted, and the palette holds
/// every entry that is named.
pub open spec fn convertible(
    fmt: PixelFormat,
    width: int,
    height: int,
    clut: Seq<u8>,
    buf: Seq<u8>,
) -> bool {
    &&& fmt.is_convertible()
    &&& source_len(fmt, width, height) <= buf.len()
    &&& width * height <= usize::MAX
    &&& fmt.is_palettized() ==> forall|i: int|
        0 <= i < width * height ==> #[trigger] palette_covers(fmt, clut, buf, i)
}

/// An alpha value stored on a scale to 128, brought to the scale to 255.
pub open spec fn double_alpha(a: u8) -> u8 {
    if a * 255 / 128 > 255 {
        255
    } else {
        (a * 255 / 128) as u8
    }
}

/// A pixel with its alpha value brought from the scale to 128 to that to 255.
pub open spec fn doubled_pixel(p: Pixel) -> Pixel {
    Pixel { r: p.r, g: p.g, b: p.b, a: double_alpha(p.a) }
}

/// The pixels with their alpha values brought from the scale to 128 to that to 255.
pub open spec fn doubled_alpha(pixels: Seq<Pixel>) -> Seq<Pixel> {
    Seq::new(pixels.len(), |i: int| doubled_pixel(pixels[i]))
}

/// Where entry `i` of a palette of blocks of 32 entries comes from once the second and
/// the third run of eight entries of each block have changed places.
pub open spec fn shuffled_entry(i: int) -> int {
    if 8 <= i % 32 < 16 {
        i + 8
    } else if 16 <= i % 32 < 24 {
        i - 8
    } else {
        i
    }
}

/// A palette of entries of four bytes, in blocks of 32 entries, with the second and
/// the third run of eight entries of each block exchanged. Entries that do not fill
/// a block are left out.
pub open spec fn shuffled_palette(clut: Seq<u8>) -> Seq<u8> {
    Seq::new(
        ((clut.len() / 128) * 128) as nat,
        |i: int| clut[shuffled_entry(i / 4) * 4 + i % 4],
    )
}

/// The low `bits` bits of `n` spread out so that bit `k` of `n` is worth `weight * 4^k`.
pub open spec fn spread_bits(n: nat, bits: nat, weight: nat) -> nat
    decreases bits,
{
    if bits == 0 {
        0
    } else {
        (n % 2) * weight + spread_bits(n / 2, (bits - 1) as nat, weight * 4)
    }
}

/// A number below 2^32 with a zero bit put in before each of its bits.
pub open spec fn twiddled(n: nat) -> nat {
    spread_bits(n, 32, 1)
}

/// Where the pixel in column `x` of row `y` lies in a twiddled image: the bits of
/// `y` and of `x` in turn, those of `y` in the even places.
pub open spec fn twiddled_index(x: nat, y: nat) -> nat {
    twiddled(y) + 2 * twiddled(x)
}

/// Pixel number `i` of the row-major image of `width` columns read out of twiddled
/// pixels; a clear pixel where the twiddled pixels have none.
pub open spec fn untwiddled_pixel(pixels: Seq<Pixel>, width: int, i: int) -> Pixel {
    let t = twiddled_index((i % width) as nat, (i / width) as nat);
    if t < pixels.len() {
        pixels[t as int]
    } else {
        clear_pixel()
    }
}

/// The row-major image of `width` by `height` read out of twiddled pixels.
pub open spec fn untwiddled_pixels(pixels: Seq<Pixel>, width: int, height: int) -> Seq<Pixel> {
    Seq::new((width * height) as nat, |i: int| untwiddled_pixel(pixels, width, i))
}

/// Pixel number `i` of a grid cut or grown to `width` columns: the pixel of the grid
/// `pixels`, of `old_width` by `old_height`, at the same column and row, or a clear one
/// where that grid has none.
pub open spec fn resized_pixel(
    pixels: Seq<Pixel>,
    old_width: int,
    old_height: int,
    width: int,
    i: int,
) -> Pixel {
    if i % width < old_width && i / width < old_height {
        pixels[(i / width) * old_width + i % width]
    } else {
        clear_pixel()
    }
}

/// The grid `pixels` cut or grown to `width` by `height`, keeping its top-left corner.
pub open spec fn resized_pixels(
    pixels: Seq<Pixel>,
    old_width: int,
    old_height: int,
    width: int,
    height: int,
) -> Seq<Pixel> {
    Seq::new(
        (width * height) as nat,
        |i: int| resized_pixel(pixels, old_width, old_height, width, i),
    )
}

/// Pixel number `i` of the grid `dst`, of `width` columns, after the grid `src` has been
/// pasted with its top-left corner at column `x`, row `y`: the pixel of `src` that lies
/// there, or else that of `dst`.
pub open spec fn pasted_pixel(
    dst: Seq<Pixel>,
    width: int,
    x: int,
    y: int,
    src: Seq<Pixel>,
    src_width: int,
    src_height: int,
    i: int,
) -> Pixel {
    let column = i % width;
    let row = i / width;
    if x <= column < x + src_width && y <= row < y + src_height {
        src[(row - y) * src_width + (column - x)]
    } else {
        dst[i]
    }
}

/// The grid `dst` after `src` has been pasted at column `x`, row `y`. What of `src`
/// would lie beyond the right or the bottom edge of `dst` is left out.
pub open spec fn pasted_pixels(
    dst: Seq<Pixel>,
    width: int,
    x: int,
    y: int,
    src: Seq<Pixel>,
    src_width: int,
    src_height: int,
) -> Seq<Pixel> {
    Seq::new(dst.len(), |i: int| pasted_pixel(dst, width, x, y, src, src_width, src_height, i))
}

/// The sizes by which a frame is crushed: it is cut into chunks of 32 by 32 pixels, of
/// which as many columns and rows are kept as the new size has for each 32 of the old.
pub struct Crush {
    /// The width of the frame.
    pub width: int,
    /// The number of chunks in a row.
    pub across: int,
    /// The number of rows of chunks.
    pub down: int,
    /// The number of columns kept of a chunk.
    pub kept_width: int,
    /// The number of rows kept of a chunk.
    pub kept_height: int,
}

/// The sizes by which a frame of `width` by `height` is crushed to `w` by `h`.
pub open spec fn crush_of(width: int, height: int, w: int, h: int) -> Crush {
    Crush {
        width,
        across: width / 32,
        down: height / 32,
        kept_width: 32 * w / width,
        kept_height: 32 * h / height,
    }
}

impl Crush {
    /// The number of pixels that are kept.
    pub open spec fn count(self) -> int {
        self.down * self.kept_height * self.across * self.kept_width
    }

    /// Where kept pixel number `i` lies in the frame. The kept pixels are taken row by
    /// row: of each row of chunks its kept rows, of each such row the kept columns of
    /// each chunk.
    pub open spec fn source(self, i: int) -> int {
        let sub_x = i % self.kept_width;
        let chunk_x = (i / self.kept_width) % self.across;
        let sub_y = (i / self.kept_width / self.across) % self.kept_height;
        let chunk_y = i / self.kept_width / self.across / self.kept_height;
        (chunk_y * 32 + sub_y) * self.width + chunk_x * 32 + sub_x
    }
}

/// The pixels of a frame crushed to `w` by `h`: the kept pixels, then, where these are
/// fewer than the new size asks for, the pixels that stood in the places after them.
pub open spec fn crushed_pixels(pixels: Seq<Pixel>, width: int, height: int, w: int, h: int) -> Seq<
    Pixel,
> {
    Seq::new(
        (w * h) as nat,
        |i: int|
            if i < crush_of(width, height, w, h).count() {
                pixels[crush_of(width, height, w, h).source(i)]
            } else {
                pixels[i]
            },
    )
}

/// A kept pixel lies within the frame.
pub proof fn lemma_crush_source(width: int, height: int, w: int, h: int, i: int)
    requires
        0 < w <= width,
        0 < h <= height,
        0 <= i < crush_of(width, height, w, h).count(),
    ensures
        0 <= crush_of(width, height, w, h).source(i) < width * height,
{
    let c = crush_of(width, height, w, h);
    assert(c.kept_width <= 32 && c.kept_height <= 32 && c.kept_width >= 0 && c.kept_height >= 0)
        by {
        lemma_fundamental_div_mod(32 * w, width);
        lemma_fundamental_div_mod(32 * h, height);
        assert(c.kept_width <= 32) by (nonlinear_arith)
            requires
                32 * w == width * c.kept_width + (32 * w) % width,
                0 <= (32 * w) % width,
                0 < w <= width,
        ;
        assert(c.kept_height <= 32) by (nonlinear_arith)
            requires
                32 * h == height * c.kept_height + (32 * h) % height,
                0 <= (32 * h) % height,
                0 < h <= height,
        ;
        assert(c.kept_width >= 0) by (nonlinear_arith)
            requires
                32 * w == width * c.kept_width + (32 * w) % width,
                (32 * w) % width < width,
                0 < w <= width,
        ;
        assert(c.kept_height >= 0) by (nonlinear_arith)
            requires
                32 * h == height * c.kept_height + (32 * h) % height,
                (32 * h) % height < height,
                0 < h <= height,
        ;
    }
    assert(c.kept_width > 0 && c.across > 0 && c.kept_height > 0 && c.down > 0) by (nonlinear_arith)
        requires
            0 < c.down * c.kept_height * c.across * c.kept_width,
            c.kept_width >= 0,
            c.kept_height >= 0,
            c.across >= 0,
            c.down >= 0,
    ;
    let t = i / c.kept_width;
    let t2 = t / c.across;
    let chunk_y = t2 / c.kept_height;
    assert(c.count() == c.kept_width * (c.down * c.kept_height * c.across)) by (nonlinear_arith)
        requires
            c.count() == c.down * c.kept_height * c.across * c.kept_width,
    ;
    lemma_multiply_divide_lt(i, c.kept_width, c.down * c.kept_height * c.across);
    assert(c.down * c.kept_height * c.across == c.across * (c.down * c.kept_height))
        by (nonlinear_arith);
    lemma_multiply_divide_lt(t, c.across, c.down * c.kept_height);
    assert(c.down * c.kept_height == c.kept_height * c.down) by (nonlinear_arith);
    lemma_multiply_divide_lt(t2, c.kept_height, c.down);
    lemma_fundamental_div_mod(i, c.kept_width);
    lemma_fundamental_div_mod(t, c.across);
    lemma_fundamental_div_mod(t2, c.kept_height);
    assert(t >= 0 && t2 >= 0 && chunk_y >= 0) by {
        vstd::arithmetic::div_mod::lemma_div_pos_is_pos(i, c.kept_width);
        vstd::arithmetic::div_mod::lemma_div_pos_is_pos(t, c.across);
        vstd::arithmetic::div_mod::lemma_div_pos_is_pos(t2, c.kept_height);
    }
    let row = chunk_y * 32 + t2 % c.kept_height;
    let column = (t % c.across) * 32 + i % c.kept_width;
    lemma_fundamental_div_mod(width, 32);
    lemma_fundamental_div_mod(height, 32);
    assert(0 <= row < height);
    assert(0 <= column < width);
    lemma_cell_bound(width, height, column, row);
}

/// The four bytes of each pixel in turn: red, green, blue, alpha.
pub open spec fn rgba_bytes(pixels: Seq<Pixel>) -> Seq<u8> {
    Seq::new(
        pixels.len() * 4,
        |i: int|
            if i % 4 == 0 {
                pixels[i / 4].r
            } else if i % 4 == 1 {
                pixels[i / 4].g
            } else if i % 4 == 2 {
                pixels[i / 4].b
            } else {
                pixels[i / 4].a
            },
    )
}

/// The larger of two numbers.
pub open spec fn greater(a: int, b: int) -> int {
    if a >= b {
        a
    } else {
        b
    }
}

/// In a grid of `width` columns, the cell in column `x` of row `y` has the number
/// `y * width + x`, and that number gives the column and the row back.
pub proof fn lemma_cell(width: int, x: int, y: int)
    requires
        0 <= x < width,
        0 <= y,
    ensures
        (y * width + x) / width == y,
        (y * width + x) % width == x,
        0 <= y * width + x,
{
    lemma_fundamental_div_mod_converse(y * width + x, width, y, x);
    assert(y * width >= 0) by (nonlinear_arith)
        requires
            y >= 0,
            width > 0,
    ;
}

/// A cell of a grid of `width` by `height` has a number below `width * height`.
pub proof fn lemma_cell_bound(width: int, height: int, x: int, y: int)
    requires
        0 <= x < width,
        0 <= y < height,
    ensures
        0 <= y * width + x < width * height,
        (y + 1) * width <= width * height,
        y * width + width == (y + 1) * width,
{
    assert(y * width + width == (y + 1) * width) by (nonlinear_arith);
    assert((y + 1) * width <= width * height) by (nonlinear_arith)
        requires
            y + 1 <= height,
            width > 0,
    ;
    assert(y * width >= 0) by (nonlinear_arith)
        requires
            y >= 0,
            width > 0,
    ;
}

/// A number below `width * height` is that of a cell of the grid.
pub proof fn lemma_cell_of(width: int, height: int, i: int)
    requires
        0 <= i < width * height,
        0 < width,
    ensures
        0 <= i % width < width,
        0 <= i / width < height,
        i == (i / width) * width + i % width,
{
    lemma_fundamental_div_mod(i, width);
    let q = i / width;
    assert(width * q == q * width) by (nonlinear_arith);
    if q >= height {
        assert(q * width >= height * width) by (nonlinear_arith)
            requires
                q >= height,
                width > 0,
        ;
        assert(height * width == width * height) by (nonlinear_arith);
    }
    if q < 0 {
        assert(q * width <= -width) by (nonlinear_arith)
            requires
                q <= -1,
                width > 0,
        ;
    }
}

/// Doubling leaves no alpha value smaller than it was; it takes 0 to 0 and 128 to 255.
pub proof fn lemma_double_alpha(a: u8)
    ensures
        double_alpha(a) >= a,
        double_alpha(0) == 0,
        double_alpha(0x80) == 0xFF,
{
}

impl Frame {
    /// Whether the frame has that size, that label and those pixels.
    pub open spec fn holds(self, fmt: PixelFormat, width: u32, height: u32, pixels: Seq<Pixel>) -> bool {
        &&& self.width == width
        &&& self.height == height
        &&& self.og_fmt == fmt
        &&& self.pixels@ == pixels
    }

    /// Whether there is exactly one pixel for each position.
    pub open spec fn wf(self) -> bool {
        self.pixels@.len() == self.width * self.height
    }

    /// The pixel in column `x` of row `y`.
    pub open spec fn at(self, x: int, y: int) -> Pixel {
        self.pixels@[y * self.width + x]
    }

    /// A frame of the given size whose pixels are all clear.
    pub fn empty(width: u32, height: u32, og_fmt: PixelFormat) -> (r: Frame)
        requires
            width * height <= usize::MAX,
        ensures
            r.holds(
                og_fmt,
                width,
                height,
                Seq::new((width * height) as nat, |i: int| clear_pixel()),
            ),
            r.wf(),
    {
        let n: usize = area(width, height) as usize;
        let pixels: Vec<Pixel> = vec![Pixel { r: 0, g: 0, b: 0, a: 0 }; n];
        assert(pixels@ =~= Seq::new((width * height) as nat, |i: int| clear_pixel()));
        Frame { width, height, og_fmt, pixels }
    }

    /// A frame from raw data in any layout, or `None` where `convertible` does not hold.
    pub fn try_new(fmt: PixelFormat, width: u32, height: u32, clut: &[u8], buf: &[u8]) -> (r: Option<
        Frame,
    >)
        ensures
            r is Some == convertible(fmt, width as int, height as int, clut@, buf@),
            r matches Some(f) ==> f.holds(
                fmt,
                width,
                height,
                decoded_pixels(fmt, width as int, height as int, clut@, buf@),
            ),
            r matches Some(f) ==> f.wf(),
    {
        let bits: usize = fmt.bpp();
        let convertible_layout: bool = match fmt {
            PixelFormat::PsxClut4
            | PixelFormat::PsxClut8
            | PixelFormat::Bgra5551Vq8
            | PixelFormat::Bgr565Vq8
            | PixelFormat::Bgra4444Vq8 => false,
            _ => true,
        };
        if !convertible_layout {
            return None;
        }
        let whole: u64 = area(width, height);
        let needed: u128 = if bits == 32 {
            whole as u128 * 4
        } else if bits == 24 {
            whole as u128 * 3
        } else if bits == 16 {
            whole as u128 * 2
        } else if bits == 8 {
            whole as u128
        } else {
            ((whole as u128 + 1) / 2) as u128
        };
        if needed > buf.len() as u128 || whole > usize::MAX as u64 {
            return None;
        }
        let count: usize = whole as usize;
        let mut pixels: Vec<Pixel> = Vec::new();
        let mut i: usize = 0;
        while i < count
            invariant
                i <= count,
                fmt.is_convertible(),
                bits == fmt.bits_per_pixel(),
                count == width * height,
                source_len(fmt, width as int, height as int) <= buf@.len(),
                pixels@.len() == i,
                forall|k: int| 0 <= k < i ==> pixels@[k] == pixel_at(fmt, clut@, buf@, k),
                fmt.is_palettized() ==> forall|k: int|
                    0 <= k < i ==> #[trigger] palette_covers(fmt, clut@, buf@, k),
            decreases count - i,
        {
            match pixel_from(fmt, clut, buf, i) {
                Some(p) => {
                    pixels.push(p);
                },
                None => {
                    return None;
                },
            }
            i += 1;
        }
        assert(pixels@ =~= decoded_pixels(fmt, width as int, height as int, clut@, buf@));
        Some(Frame { width, height, og_fmt: fmt, pixels })
    }

    /// A frame from `RGBA` data in `buf`.
    pub fn from_rgba(width: u32, height: u32, buf: &[u8]) -> (r: Frame)
        requires
            convertible(PixelFormat::Rgba, width as int, height as int, Seq::empty(), buf@),
        ensures
            r.holds(
                PixelFormat::Rgba,
                width,
                height,
                decoded_pixels(PixelFormat::Rgba, width as int, height as int, Seq::empty(), buf@),
            ),
            r.wf(),
    {
        let clut: Vec<u8> = Vec::new();
        Frame::try_new(PixelFormat::Rgba, width, height, clut.as_slice(), buf).unwrap()
    }

    /// A frame from `RGBA5551` data in `buf`.
    pub fn from_rgba16(width: u32, height: u32, buf: &[u8]) -> (r: Frame)
        requires
            convertible(PixelFormat::Rgba16, width as int, height as int, Seq::empty(), buf@),
        ensures
            r.holds(
                PixelFormat::Rgba16,
                width,
                height,
                decoded_pixels(PixelFormat::Rgba16, width as int, height as int, Seq::empty(), buf@),
            ),
            r.wf(),
    {
        let clut: Vec<u8> = Vec::new();
        Frame::try_new(PixelFormat::Rgba16, width, height, clut.as_slice(), buf).unwrap()
    }

    /// A frame from `BGRA5551` data in `buf`.
    pub fn from_bgra16(width: u32, height: u32, buf: &[u8]) -> (r: Frame)
        requires
            convertible(PixelFormat::Bgra16, width as int, height as int, Seq::empty(), buf@),
        ensures
            r.holds(
                PixelFormat::Bgra16,
                width,
                height,
                decoded_pixels(PixelFormat::Bgra16, width as int, height as int, Seq::empty(), buf@),
            ),
            r.wf(),
    {
        let clut: Vec<u8> = Vec::new();
        Frame::try_new(PixelFormat::Bgra16, width, height, clut.as_slice(), buf).unwrap()
    }

    /// A frame from `RGBA4444` data in `buf`.
    pub fn from_rgba4444(width: u32, height: u32, buf: &[u8]) -> (r: Frame)
        requires
            convertible(PixelFormat::Rgba4444, width as int, height as int, Seq::empty(), buf@),
        ensures
            r.holds(
                PixelFormat::Rgba4444,
                width,
                height,
                decoded_pixels(PixelFormat::Rgba4444, width as int, height as int, Seq::empty(), buf@),
            ),
            r.wf(),
    {
        let clut: Vec<u8> = Vec::new();
        Frame::try_new(PixelFormat::Rgba4444, width, height, clut.as_slice(), buf).unwrap()
    }

    /// A frame from `BGRA4444` data in `buf`.
    pub fn from_bgra4444(width: u32, height: u32, buf: &[u8]) -> (r: Frame)
        requires
            convertible(PixelFormat::Bgra4444, width as int, height as int, Seq::empty(), buf@),
        ensures
            r.holds(
                PixelFormat::Bgra4444,
                width,
                height,
                decoded_pixels(PixelFormat::Bgra4444, width as int, height as int, Seq::empty(), buf@),
            ),
            r.wf(),
    {
        let clut: Vec<u8> = Vec::new();
        Frame::try_new(PixelFormat::Bgra4444, width, height, clut.as_slice(), buf).unwrap()
    }

    /// A frame from `RGB565` data in `buf`.
    pub fn from_rgb16(width: u32, height: u32, buf: &[u8]) -> (r: Frame)
        requires
            convertible(PixelFormat::Rgb16, width as int, height as int, Seq::empty(), buf@),
        ensures
            r.holds(
                PixelFormat::Rgb16,
                width,
                height,
                decoded_pixels(PixelFormat::Rgb16, width as int, height as int, Seq::empty(), buf@),
            ),
            r.wf(),
    {
        let clut: Vec<u8> = Vec::new();
        Frame::try_new(PixelFormat::Rgb16, width, height, clut.as_slice(), buf).unwrap()
    }

    /// A frame from `BGR565` data in `buf`.
    pub fn from_bgr16(width: u32, height: u32, buf: &[u8]) -> (r: Frame)
        requires
            convertible(PixelFormat::Bgr16, width as int, height as int, Seq::empty(), buf@),
        ensures
            r.holds(
                PixelFormat::Bgr16,
                width,
                height,
                decoded_pixels(PixelFormat::Bgr16, width as int, height as int, Seq::empty(), buf@),
            ),
            r.wf(),
    {
        let clut: Vec<u8> = Vec::new();
        Frame::try_new(PixelFormat::Bgr16, width, height, clut.as_slice(), buf).unwrap()
    }

    /// A frame from `RGBA clut8` data: indices in `buf`, palette entries in `clut`.
    pub fn from_rgba_clut8(width: u32, height: u32, clut: &[u8], buf: &[u8]) -> (r: Frame)
        requires
            convertible(PixelFormat::RgbaClut8, width as int, height as int, clut@, buf@),
        ensures
            r.holds(
                PixelFormat::RgbaClut8,
                width,
                height,
                decoded_pixels(PixelFormat::RgbaClut8, width as int, height as int, clut@, buf@),
            ),
            r.wf(),
    {
        Frame::try_new(PixelFormat::RgbaClut8, width, height, clut, buf).unwrap()
    }

    /// A frame from `RGBA clut4` data: indices in `buf`, palette entries in `clut`.
    pub fn from_rgba_clut4(width: u32, height: u32, clut: &[u8], buf: &[u8]) -> (r: Frame)
        requires
            convertible(PixelFormat::RgbaClut4, width as int, height as int, clut@, buf@),
        ensures
            r.holds(
                PixelFormat::RgbaClut4,
                width,
                height,
                decoded_pixels(PixelFormat::RgbaClut4, width as int, height as int, clut@, buf@),
            ),
            r.wf(),
    {
        Frame::try_new(PixelFormat::RgbaClut4, width, height, clut, buf).unwrap()
    }

    /// A frame from `BGRA` data in `buf`.
    pub fn from_bgra(width: u32, height: u32, buf: &[u8]) -> (r: Frame)
        requires
            convertible(PixelFormat::Bgra, width as int, height as int, Seq::empty(), buf@),
        ensures
            r.holds(
                PixelFormat::Bgra,
                width,
                height,
                decoded_pixels(PixelFormat::Bgra, width as int, height as int, Seq::empty(), buf@),
            ),
            r.wf(),
    {
        let clut: Vec<u8> = Vec::new();
        Frame::try_new(PixelFormat::Bgra, width, height, clut.as_slice(), buf).unwrap()
    }

    /// A frame from `BGRA clut8` data: indices in `buf`, palette entries in `clut`.
    pub fn from_bgra_clut8(width: u32, height: u32, clut: &[u8], buf: &[u8]) -> (r: Frame)
        requires
            convertible(PixelFormat::BgraClut8, width as int, height as int, clut@, buf@),
        ensures
            r.holds(
                PixelFormat::BgraClut8,
                width,
                height,
                decoded_pixels(PixelFormat::BgraClut8, width as int, height as int, clut@, buf@),
            ),
            r.wf(),
    {
        Frame::try_new(PixelFormat::BgraClut8, width, height, clut, buf).unwrap()
    }

    /// A frame from `BGRA clut4` data: indices in `buf`, palette entries in `clut`.
    pub fn from_bgra_clut4(width: u32, height: u32, clut: &[u8], buf: &[u8]) -> (r: Frame)
        requires
            convertible(PixelFormat::BgraClut4, width as int, height as int, clut@, buf@),
        ensures
            r.holds(
                PixelFormat::BgraClut4,
                width,
                height,
                decoded_pixels(PixelFormat::BgraClut4, width as int, height as int, clut@, buf@),
            ),
            r.wf(),
    {
        Frame::try_new(PixelFormat::BgraClut4, width, height, clut, buf).unwrap()
    }

    /// A frame from `RGBX` data in `buf`.
    pub fn from_rgbx(width: u32, height: u32, buf: &[u8]) -> (r: Frame)
        requires
            convertible(PixelFormat::Rgbx, width as int, height as int, Seq::empty(), buf@),
        ensures
            r.holds(
                PixelFormat::Rgbx,
                width,
                height,
                decoded_pixels(PixelFormat::Rgbx, width as int, height as int, Seq::empty(), buf@),
            ),
            r.wf(),
    {
        let clut: Vec<u8> = Vec::new();
        Frame::try_new(PixelFormat::Rgbx, width, height, clut.as_slice(), buf).unwrap()
    }

    /// A frame from `RGBX clut8` data: indices in `buf`, palette entries in `clut`.
    pub fn from_rgbx_clut8(width: u32, height: u32, clut: &[u8], buf: &[u8]) -> (r: Frame)
        requires
            convertible(PixelFormat::RgbxClut8, width as int, height as int, clut@, buf@),
        ensures
            r.holds(
                PixelFormat::RgbxClut8,
                width,
                height,
                decoded_pixels(PixelFormat::RgbxClut8, width as int, height as int, clut@, buf@),
            ),
            r.wf(),
    {
        Frame::try_new(PixelFormat::RgbxClut8, width, height, clut, buf).unwrap()
    }

    /// A frame from `RGBX clut4` data: indices in `buf`, palette entries in `clut`.
    pub fn from_rgbx_clut4(width: u32, height: u32, clut: &[u8], buf: &[u8]) -> (r: Frame)
        requires
            convertible(PixelFormat::RgbxClut4, width as int, height as int, clut@, buf@),
        ensures
            r.holds(
                PixelFormat::RgbxClut4,
                width,
                height,
                decoded_pixels(PixelFormat::RgbxClut4, width as int, height as int, clut@, buf@),
            ),
            r.wf(),
    {
        Frame::try_new(PixelFormat::RgbxClut4, width, height, clut, buf).unwrap()
    }

    /// A frame from `BGRX` data in `buf`.
    pub fn from_bgrx(width: u32, height: u32, buf: &[u8]) -> (r: Frame)
        requires
            convertible(PixelFormat::Bgrx, width as int, height as int, Seq::empty(), buf@),
        ensures
            r.holds(
                PixelFormat::Bgrx,
                width,
                height,
                decoded_pixels(PixelFormat::Bgrx, width as int, height as int, Seq::empty(), buf@),
            ),
            r.wf(),
    {
        let clut: Vec<u8> = Vec::new();
        Frame::try_new(PixelFormat::Bgrx, width, height, clut.as_slice(), buf).unwrap()
    }

    /// A frame from `BGRX clut8` data: indices in `buf`, palette entries in `clut`.
    pub fn from_bgrx_clut8(width: u32, height: u32, clut: &[u8], buf: &[u8]) -> (r: Frame)
        requires
            convertible(PixelFormat::BgrxClut8, width as int, height as int, clut@, buf@),
        ensures
            r.holds(
                PixelFormat::BgrxClut8,
                width,
                height,
                decoded_pixels(PixelFormat::BgrxClut8, width as int, height as int, clut@, buf@),
            ),
            r.wf(),
    {
        Frame::try_new(PixelFormat::BgrxClut8, width, height, clut, buf).unwrap()
    }

    /// A frame from `BGRX clut4` data: indices in `buf`, palette entries in `clut`.
    pub fn from_bgrx_clut4(width: u32, height: u32, clut: &[u8], buf: &[u8]) -> (r: Frame)
        requires
            convertible(PixelFormat::BgrxClut4, width as int, height as int, clut@, buf@),
        ensures
            r.holds(
                PixelFormat::BgrxClut4,
                width,
                height,
                decoded_pixels(PixelFormat::BgrxClut4, width as int, height as int, clut@, buf@),
            ),
            r.wf(),
    {
        Frame::try_new(PixelFormat::BgrxClut4, width, height, clut, buf).unwrap()
    }

    /// A frame from `RGB` data in `buf`.
    pub fn from_rgb(width: u32, height: u32, buf: &[u8]) -> (r: Frame)
        requires
            convertible(PixelFormat::Rgb, width as int, height as int, Seq::empty(), buf@),
        ensures
            r.holds(
                PixelFormat::Rgb,
                width,
                height,
                decoded_pixels(PixelFormat::Rgb, width as int, height as int, Seq::empty(), buf@),
            ),
            r.wf(),
    {
        let clut: Vec<u8> = Vec::new();
        Frame::try_new(PixelFormat::Rgb, width, height, clut.as_slice(), buf).unwrap()
    }

    /// A frame from `RGB clut8` data: indices in `buf`, palette entries in `clut`.
    pub fn from_rgb_clut8(width: u32, height: u32, clut: &[u8], buf: &[u8]) -> (r: Frame)
        requires
            convertible(PixelFormat::RgbClut8, width as int, height as int, clut@, buf@),
        ensures
            r.holds(
                PixelFormat::RgbClut8,
                width,
                height,
                decoded_pixels(PixelFormat::RgbClut8, width as int, height as int, clut@, buf@),
            ),
            r.wf(),
    {
        Frame::try_new(PixelFormat::RgbClut8, width, height, clut, buf).unwrap()
    }

    /// A frame from `RGB clut4` data: indices in `buf`, palette entries in `clut`.
    pub fn from_rgb_clut4(width: u32, height: u32, clut: &[u8], buf: &[u8]) -> (r: Frame)
        requires
            convertible(PixelFormat::RgbClut4, width as int, height as int, clut@, buf@),
        ensures
            r.holds(
                PixelFormat::RgbClut4,
                width,
                height,
                decoded_pixels(PixelFormat::RgbClut4, width as int, height as int, clut@, buf@),
            ),
            r.wf(),
    {
        Frame::try_new(PixelFormat::RgbClut4, width, height, clut, buf).unwrap()
    }

    /// A frame from `BGR` data in `buf`.
    pub fn from_bgr(width: u32, height: u32, buf: &[u8]) -> (r: Frame)
        requires
            convertible(PixelFormat::Bgr, width as int, height as int, Seq::empty(), buf@),
        ensures
            r.holds(
                PixelFormat::Bgr,
                width,
                height,
                decoded_pixels(PixelFormat::Bgr, width as int, height as int, Seq::empty(), buf@),
            ),
            r.wf(),
    {
        let clut: Vec<u8> = Vec::new();
        Frame::try_new(PixelFormat::Bgr, width, height, clut.as_slice(), buf).unwrap()
    }

    /// A frame from `BGR clut8` data: indices in `buf`, palette entries in `clut`.
    pub fn from_bgr_clut8(width: u32, height: u32, clut: &[u8], buf: &[u8]) -> (r: Frame)
        requires
            convertible(PixelFormat::BgrClut8, width as int, height as int, clut@, buf@),
        ensures
            r.holds(
                PixelFormat::BgrClut8,
                width,
                height,
                decoded_pixels(PixelFormat::BgrClut8, width as int, height as int, clut@, buf@),
            ),
            r.wf(),
    {
        Frame::try_new(PixelFormat::BgrClut8, width, height, clut, buf).unwrap()
    }

    /// A frame from `BGR clut4` data: indices in `buf`, palette entries in `clut`.
    pub fn from_bgr_clut4(width: u32, height: u32, clut: &[u8], buf: &[u8]) -> (r: Frame)
        requires
            convertible(PixelFormat::BgrClut4, width as int, height as int, clut@, buf@),
        ensures
            r.holds(
                PixelFormat::BgrClut4,
                width,
                height,
                decoded_pixels(PixelFormat::BgrClut4, width as int, height as int, clut@, buf@),
            ),
            r.wf(),
    {
        Frame::try_new(PixelFormat::BgrClut4, width, height, clut, buf).unwrap()
    }

    /// The same frame under another label.
    pub fn with_og_fmt(self, og_fmt: PixelFormat) -> (r: Frame)
        ensures
            r.holds(og_fmt, self.width, self.height, self.pixels@),
    {
        let mut frame = self;
        frame.og_fmt = og_fmt;
        frame
    }

    /// The same frame with every alpha value brought from the scale to 128 to that to 255.
    pub fn with_double_alpha(self) -> (r: Frame)
        ensures
            r.holds(self.og_fmt, self.width, self.height, doubled_alpha(self.pixels@)),
    {
        let mut frame = self;
        let ghost before = frame.pixels@;
        let n: usize = frame.pixels.len();
        let mut i: usize = 0;
        while i < n
            invariant
                i <= n,
                n == before.len(),
                frame.pixels@.len() == n,
                frame.width == self.width,
                frame.height == self.height,
                frame.og_fmt == self.og_fmt,
                before == self.pixels@,
                forall|k: int| 0 <= k < i ==> #[trigger] frame.pixels@[k] == doubled_pixel(before[k]),
                forall|k: int| i <= k < n ==> frame.pixels@[k] == before[k],
            decreases n - i,
        {
            let p: Pixel = frame.pixels[i];
            let wide: u16 = p.a as u16 * 255 / 128;
            let a: u8 = if wide > 255 {
                255
            } else {
                wide as u8
            };
            frame.pixels.set(i, Pixel { r: p.r, g: p.g, b: p.b, a });
            i += 1;
        }
        assert(frame.pixels@ =~= doubled_alpha(before));
        frame
    }

    /// The pixels of row `y`.
    pub fn row(&self, y: u32) -> (r: &[Pixel])
        requires
            self.wf(),
            y < self.height,
        ensures
            r@ == self.pixels@.subrange(y * self.width, y * self.width + self.width),
    {
        proof {
            if self.width > 0 {
                lemma_cell_bound(self.width as int, self.height as int, 0, y as int);
            } else {
                assert(y * self.width == 0) by (nonlinear_arith)
                    requires
                        self.width == 0,
                ;
            }
        }
        let w: usize = self.width as usize;
        let total: usize = self.pixels.len();
        let start: usize = y as usize * w;
        &self.pixels.as_slice()[start..start + w]
    }

    /// The pixels of row `y`, to be changed in place.
    pub fn row_mut(&mut self, y: u32) -> (r: &mut [Pixel])
        requires
            old(self).wf(),
            y < old(self).height,
        ensures
            r@ == old(self).pixels@.subrange(
                y * old(self).width,
                y * old(self).width + old(self).width,
            ),
            final(self).width == old(self).width,
            final(self).height == old(self).height,
            final(self).og_fmt == old(self).og_fmt,
            final(self).pixels@ == old(self).pixels@.subrange(0, y * old(self).width) + final(r)@
                + old(self).pixels@.subrange(
                y * old(self).width + old(self).width,
                old(self).pixels@.len() as int,
            ),
    {
        proof {
            if self.width > 0 {
                lemma_cell_bound(self.width as int, self.height as int, 0, y as int);
            } else {
                assert(y * self.width == 0) by (nonlinear_arith)
                    requires
                        self.width == 0,
                ;
            }
        }
        let w: usize = self.width as usize;
        let total: usize = self.pixels.len();
        let start: usize = y as usize * w;
        let (_, rest) = self.pixels.as_mut_slice().split_at_mut(start);
        let (row, _) = rest.split_at_mut(w);
        row
    }

    /// Cuts or grows the frame to `w` by `h`, keeping its top-left corner; new pixels are clear.
    pub fn resize(&mut self, w: u32, h: u32)
        requires
            old(self).wf(),
            w * h <= usize::MAX,
        ensures
            final(self).holds(
                old(self).og_fmt,
                w,
                h,
                resized_pixels(
                    old(self).pixels@,
                    old(self).width as int,
                    old(self).height as int,
                    w as int,
                    h as int,
                ),
            ),
            final(self).wf(),
    {
        let mut pixels: Vec<Pixel> = Vec::new();
        let mut y: u32 = 0;
        while y < h
            invariant
                y <= h,
                w * h <= usize::MAX,
                self.wf(),
                *self == *old(self),
                pixels@.len() == y * w,
                forall|i: int| 0 <= i < pixels@.len() ==> pixels@[i] == resized_pixel(
                        self.pixels@,
                        self.width as int,
                        self.height as int,
                        w as int,
                        i,
                    ),
            decreases h - y,
        {
            let mut x: u32 = 0;
            while x < w
                invariant
                    y < h,
                    x <= w,
                    w * h <= usize::MAX,
                    self.wf(),
                    *self == *old(self),
                    pixels@.len() == y * w + x,
                    forall|i: int|
                        0 <= i < pixels@.len() ==> pixels@[i] == resized_pixel(
                        self.pixels@,
                        self.width as int,
                        self.height as int,
                        w as int,
                        i,
                    ),
                decreases w - x,
            {
                proof {
                    lemma_cell(w as int, x as int, y as int);
                    lemma_cell_bound(w as int, h as int, x as int, y as int);
                }
                let p: Pixel = if x < self.width && y < self.height {
                    proof {
                        lemma_cell_bound(self.width as int, self.height as int, x as int, y as int);
                    }
                    let total: usize = self.pixels.len();
                    self.pixels[y as usize * self.width as usize + x as usize]
                } else {
                    Pixel { r: 0, g: 0, b: 0, a: 0 }
                };
                pixels.push(p);
                x += 1;
            }
            proof {
                if w > 0 {
                    lemma_cell_bound(w as int, h as int, 0, y as int);
                } else {
                    assert(y * w == 0 && (y + 1) * w == 0) by (nonlinear_arith)
                        requires
                            w == 0,
                    ;
                }
            }
            y += 1;
        }
        proof {
            assert(h * w == w * h) by (nonlinear_arith);
            assert(pixels@ =~= resized_pixels(
                self.pixels@,
                self.width as int,
                self.height as int,
                w as int,
                h as int,
            ));
        }
        self.pixels = pixels;
        self.width = w;
        self.height = h;
    }

    /// The frame cut or grown to `w` by `h`.
    pub fn resized(self, w: u32, h: u32) -> (r: Frame)
        requires
            self.wf(),
            w * h <= usize::MAX,
        ensures
            r.holds(
                self.og_fmt,
                w,
                h,
                resized_pixels(
                    self.pixels@,
                    self.width as int,
                    self.height as int,
                    w as int,
                    h as int,
                ),
            ),
            r.wf(),
    {
        let mut frame = self;
        frame.resize(w, h);
        frame
    }

    /// The frame crushed down to `w` by `h`: of each chunk of 32 by 32 pixels only the
    /// leading columns and rows are kept. A frame that has that size already is left as
    /// it is; a width or a height of zero leaves no pixels.
    pub fn crushed_down(self, w: u32, h: u32) -> (r: Frame)
        requires
            self.wf(),
            !(w == self.width && h == self.height) ==> 0 < self.width && 0 < self.height && w
                <= self.width && h <= self.height,
        ensures
            r.wf(),
            r.holds(
                self.og_fmt,
                w,
                h,
                if w == self.width && h == self.height {
                    self.pixels@
                } else {
                    crushed_pixels(
                        self.pixels@,
                        self.width as int,
                        self.height as int,
                        w as int,
                        h as int,
                    )
                },
            ),
    {
        if w == self.width && h == self.height {
            return self;
        }
        if w == 0 || h == 0 {
            let pixels: Vec<Pixel> = Vec::new();
            assert(w * h == 0) by (nonlinear_arith)
                requires
                    w == 0 || h == 0,
            ;
            assert(pixels@ =~= crushed_pixels(
                self.pixels@,
                self.width as int,
                self.height as int,
                w as int,
                h as int,
            ));
            return Frame { width: w, height: h, og_fmt: self.og_fmt, pixels };
        }
        let total: usize = self.pixels.len();
        proof {
            assert(w * h <= self.width * self.height) by (nonlinear_arith)
                requires
                    0 < w <= self.width,
                    0 < h <= self.height,
            ;
        }
        let width: u64 = self.width as u64;
        let across: u64 = width / 32;
        let down: u64 = self.height as u64 / 32;
        let kept_width: u64 = 32 * w as u64 / width;
        let kept_height: u64 = 32 * h as u64 / self.height as u64;
        let ghost c = crush_of(self.width as int, self.height as int, w as int, h as int);
        let wanted: usize = area(w, h) as usize;
        proof {
            lemma_fundamental_div_mod(32 * w, self.width as int);
            lemma_fundamental_div_mod(32 * h, self.height as int);
            assert(kept_width <= 32) by (nonlinear_arith)
                requires
                    32 * w == self.width * kept_width + (32 * w) % (self.width as int),
                    0 <= (32 * w) % (self.width as int),
                    0 < w <= self.width,
            ;
            assert(kept_height <= 32) by (nonlinear_arith)
                requires
                    32 * h == self.height * kept_height + (32 * h) % (self.height as int),
                    0 <= (32 * h) % (self.height as int),
                    0 < h <= self.height,
            ;
            assert(down * kept_height <= 0xFFFF_FFFF) by (nonlinear_arith)
                requires
                    0 <= down,
                    down * 32 <= self.height,
                    0 <= kept_height <= 32,
                    self.height <= 0xFFFF_FFFF,
            ;
            assert(across * kept_width <= 0xFFFF_FFFF) by (nonlinear_arith)
                requires
                    0 <= across,
                    across * 32 <= self.width,
                    0 <= kept_width <= 32,
                    self.width <= 0xFFFF_FFFF,
            ;
            assert((down * kept_height) * (across * kept_width) <= 0xFFFF_FFFF * 0xFFFF_FFFF)
                by (nonlinear_arith)
                requires
                    0 <= down * kept_height <= 0xFFFF_FFFF,
                    0 <= across * kept_width <= 0xFFFF_FFFF,
            ;
            assert((down * kept_height) * (across * kept_width) == down * kept_height * across
                * kept_width) by (nonlinear_arith);
        }
        let count: u64 = (down * kept_height) * (across * kept_width);
        let mut pixels: Vec<Pixel> = Vec::new();
        let mut i: usize = 0;
        while i < wanted
            invariant
                i <= wanted,
                wanted == w * h,
                wanted <= total,
                total == self.pixels@.len(),
                self.wf(),
                0 < w <= self.width,
                0 < h <= self.height,
                width == self.width,
                c == crush_of(self.width as int, self.height as int, w as int, h as int),
                across == c.across,
                down == c.down,
                kept_width == c.kept_width,
                kept_height == c.kept_height,
                count == c.count(),
                pixels@.len() == i,
                forall|k: int|
                    0 <= k < i ==> pixels@[k] == (if k < c.count() {
                        self.pixels@[c.source(k)]
                    } else {
                        self.pixels@[k]
                    }),
            decreases wanted - i,
        {
            let p: Pixel = if (i as u64) < count {
                proof {
                    lemma_crush_source(
                        self.width as int,
                        self.height as int,
                        w as int,
                        h as int,
                        i as int,
                    );
                }
                assert(kept_width > 0 && across > 0 && kept_height > 0) by (nonlinear_arith)
                    requires
                        0 < down * kept_height * across * kept_width,
                        kept_width >= 0,
                        kept_height >= 0,
                        across >= 0,
                        down >= 0,
                ;
                let n: u64 = i as u64;
                let sub_x: u64 = n % kept_width;
                let chunk_x: u64 = (n / kept_width) % across;
                let sub_y: u64 = (n / kept_width / across) % kept_height;
                let chunk_y: u64 = n / kept_width / across / kept_height;
                assert(chunk_y * 32 + sub_y < 0x1_0000_0000 && (chunk_y * 32 + sub_y) * width
                    + chunk_x * 32 + sub_x == c.source(i as int)) by {
                    assert(c.source(i as int) == (chunk_y * 32 + sub_y) * width + chunk_x * 32
                        + sub_x);
                    assert(chunk_y * 32 + sub_y < 0x1_0000_0000) by (nonlinear_arith)
                        requires
                            0 <= (chunk_y * 32 + sub_y) * width + chunk_x * 32 + sub_x < width
                                * self.height,
                            0 < width,
                            self.height < 0x1_0000_0000,
                            0 <= chunk_x,
                            0 <= sub_x,
                            0 <= chunk_y * 32 + sub_y,
                    ;
                }
                assert((chunk_y * 32 + sub_y) * width <= 0xFFFF_FFFF * 0xFFFF_FFFF)
                    by (nonlinear_arith)
                    requires
                        0 <= chunk_y * 32 + sub_y <= 0xFFFF_FFFF,
                        0 <= width <= 0xFFFF_FFFF,
                ;
                self.pixels[((chunk_y * 32 + sub_y) * width + chunk_x * 32 + sub_x) as usize]
            } else {
                self.pixels[i]
            };
            pixels.push(p);
            i += 1;
        }
        assert(pixels@ =~= crushed_pixels(
            self.pixels@,
            self.width as int,
            self.height as int,
            w as int,
            h as int,
        ));
        Frame { width: w, height: h, og_fmt: self.og_fmt, pixels }
    }

    /// Copies `o` into the frame with its top-left corner at column `x`, row `y`, leaving
    /// out what would lie beyond the right or the bottom edge.
    pub fn paste(&mut self, x: u32, y: u32, o: &Frame)
        requires
            old(self).wf(),
            o.wf(),
        ensures
            final(self).holds(
                old(self).og_fmt,
                old(self).width,
                old(self).height,
                pasted_pixels(
                    old(self).pixels@,
                    old(self).width as int,
                    x as int,
                    y as int,
                    o.pixels@,
                    o.width as int,
                    o.height as int,
                ),
            ),
            final(self).wf(),
    {
        let end_x: u32 = if x as u64 + (o.width as u64) < self.width as u64 {
            x + o.width
        } else {
            self.width
        };
        let end_y: u32 = if y as u64 + (o.height as u64) < self.height as u64 {
            y + o.height
        } else {
            self.height
        };
        let width: usize = self.width as usize;
        let total: usize = self.pixels.len();
        let ghost before = *self;
        let mut row: u32 = y;
        while row < end_y
            invariant
                y <= row,
                end_y <= self.height,
                end_y <= y + o.height,
                end_x <= self.width,
                end_x <= x + o.width,
                end_x == self.width || end_x == x + o.width,
                width == self.width,
                total == self.pixels@.len(),
                self.wf(),
                o.wf(),
                before == *old(self),
                self.width == before.width,
                self.height == before.height,
                self.og_fmt == before.og_fmt,
                forall|i: int|
                    0 <= i < total ==> #[trigger] self.pixels@[i] == (if i / (width as int) < row {
                        pasted_pixel(
                            before.pixels@,
                            before.width as int,
                            x as int,
                            y as int,
                            o.pixels@,
                            o.width as int,
                            o.height as int,
                            i,
                        )
                    } else {
                        before.pixels@[i]
                    }),
            decreases
                    (if row < end_y {
                        end_y - row
                    } else {
                        0
                    }),
        {
            let mut column: u32 = x;
            while column < end_x
                invariant
                    y <= row < end_y,
                    x <= column,
                    end_y <= self.height,
                    end_y <= y + o.height,
                    end_x <= self.width,
                    end_x <= x + o.width,
                    width == self.width,
                    total == self.pixels@.len(),
                    self.wf(),
                    o.wf(),
                    before == *old(self),
                    self.width == before.width,
                    self.height == before.height,
                    self.og_fmt == before.og_fmt,
                    forall|i: int|
                        0 <= i < total ==> #[trigger] self.pixels@[i] == (if i / (width as int) < row
                            || (i / (width as int) == row && i % (width as int) < column) {
                            pasted_pixel(
                            before.pixels@,
                            before.width as int,
                            x as int,
                            y as int,
                            o.pixels@,
                            o.width as int,
                            o.height as int,
                            i,
                        )
                        } else {
                            before.pixels@[i]
                        }),
                decreases
                        (if column < end_x {
                            end_x - column
                        } else {
                            0
                        }),
            {
                proof {
                    lemma_cell(width as int, column as int, row as int);
                    lemma_cell_bound(width as int, self.height as int, column as int, row as int);
                    lemma_cell_bound(
                        o.width as int,
                        o.height as int,
                        column - x,
                        row - y,
                    );
                }
                let other: usize = o.pixels.len();
                let p: Pixel = o.pixels[(row - y) as usize * o.width as usize + (column - x) as usize];
                let at: usize = row as usize * width + column as usize;
                let ghost prev = self.pixels@;
                self.pixels.set(at, p);
                proof {
                    assert forall|i: int| 0 <= i < total implies #[trigger] self.pixels@[i] == (if i / (
                    width as int) < row || (i / (width as int) == row && i % (width as int) < column
                        + 1) {
                        pasted_pixel(
                            before.pixels@,
                            before.width as int,
                            x as int,
                            y as int,
                            o.pixels@,
                            o.width as int,
                            o.height as int,
                            i,
                        )
                    } else {
                        before.pixels@[i]
                    }) by {
                        lemma_cell_of(width as int, self.height as int, i);
                        if i != at {
                            assert(self.pixels@[i] == prev[i]);
                        }
                    }
                }
                column += 1;
            }
            proof {
                assert forall|i: int| 0 <= i < total implies #[trigger] self.pixels@[i] == (if i / (
                width as int) < row + 1 {
                    pasted_pixel(
                            before.pixels@,
                            before.width as int,
                            x as int,
                            y as int,
                            o.pixels@,
                            o.width as int,
                            o.height as int,
                            i,
                        )
                } else {
                    before.pixels@[i]
                }) by {
                    lemma_cell_of(width as int, self.height as int, i);
                }
            }
            row += 1;
        }
        proof {
            assert forall|i: int| 0 <= i < total implies self.pixels@[i] == pasted_pixel(
                before.pixels@,
                before.width as int,
                x as int,
                y as int,
                o.pixels@,
                o.width as int,
                o.height as int,
                i,
            ) by {
                if self.width > 0 {
                    lemma_cell_of(width as int, self.height as int, i);
                }
                assert(self.pixels@[i] == (if i / (width as int) < row {
                    pasted_pixel(
                            before.pixels@,
                            before.width as int,
                            x as int,
                            y as int,
                            o.pixels@,
                            o.width as int,
                            o.height as int,
                            i,
                        )
                } else {
                    before.pixels@[i]
                }));
            }
            assert(self.pixels@ =~= pasted_pixels(
                before.pixels@,
                before.width as int,
                x as int,
                y as int,
                o.pixels@,
                o.width as int,
                o.height as int,
            ));
        }
    }

    /// Grows the frame until `o` fits at column `x`, row `y`, then copies `o` there.
    pub fn paste_resizing(&mut self, x: u32, y: u32, o: &Frame)
        requires
            old(self).wf(),
            o.wf(),
            x + o.width <= u32::MAX,
            y + o.height <= u32::MAX,
            greater(old(self).width as int, x + o.width) * greater(
                old(self).height as int,
                y + o.height,
            ) <= usize::MAX,
        ensures
            final(self).wf(),
            final(self).og_fmt == old(self).og_fmt,
            final(self).width == greater(old(self).width as int, x + o.width),
            final(self).height == greater(old(self).height as int, y + o.height),
            final(self).pixels@ == pasted_pixels(
                resized_pixels(
                    old(self).pixels@,
                    old(self).width as int,
                    old(self).height as int,
                    greater(old(self).width as int, x + o.width),
                    greater(old(self).height as int, y + o.height),
                ),
                greater(old(self).width as int, x + o.width),
                x as int,
                y as int,
                o.pixels@,
                o.width as int,
                o.height as int,
            ),
    {
        if x + o.width > self.width || y + o.height > self.height {
            let w: u32 = if self.width > x + o.width {
                self.width
            } else {
                x + o.width
            };
            let h: u32 = if self.height > y + o.height {
                self.height
            } else {
                y + o.height
            };
            self.resize(w, h);
        } else {
            proof {
                let same = resized_pixels(
                    self.pixels@,
                    self.width as int,
                    self.height as int,
                    self.width as int,
                    self.height as int,
                );
                assert forall|i: int| 0 <= i < self.pixels@.len() implies same[i]
                    == self.pixels@[i] by {
                    lemma_cell_of(self.width as int, self.height as int, i);
                }
                assert(same =~= self.pixels@);
            }
        }
        self.paste(x, y, o);
    }

    /// The row-major frame read out of a frame whose pixels are stored twiddled.
    pub fn twiddled_dc(self) -> (r: Frame)
        requires
            self.width * self.height <= usize::MAX,
        ensures
            r.holds(
                self.og_fmt,
                self.width,
                self.height,
                untwiddled_pixels(self.pixels@, self.width as int, self.height as int),
            ),
            r.wf(),
    {
        let mut pixels: Vec<Pixel> = Vec::new();
        let total: usize = self.pixels.len();
        let mut y: u32 = 0;
        while y < self.height
            invariant
                y <= self.height,
                self.width * self.height <= usize::MAX,
                total == self.pixels@.len(),
                pixels@.len() == y * self.width,
                forall|i: int|
                    0 <= i < pixels@.len() ==> pixels@[i] == untwiddled_pixel(
                        self.pixels@,
                        self.width as int,
                        i,
                    ),
            decreases self.height - y,
        {
            let row: u64 = bit_twiddle(y);
            let mut x: u32 = 0;
            while x < self.width
                invariant
                    y < self.height,
                    x <= self.width,
                    self.width * self.height <= usize::MAX,
                    total == self.pixels@.len(),
                    row == twiddled(y as nat),
                    pixels@.len() == y * self.width + x,
                    forall|i: int|
                        0 <= i < pixels@.len() ==> pixels@[i] == untwiddled_pixel(
                            self.pixels@,
                            self.width as int,
                            i,
                        ),
                decreases self.width - x,
            {
                proof {
                    lemma_cell(self.width as int, x as int, y as int);
                    lemma_cell_bound(self.width as int, self.height as int, x as int, y as int);
                }
                let index: u128 = row as u128 + 2 * bit_twiddle(x) as u128;
                let p: Pixel = if index < total as u128 {
                    self.pixels[index as usize]
                } else {
                    Pixel { r: 0, g: 0, b: 0, a: 0 }
                };
                pixels.push(p);
                x += 1;
            }
            proof {
                if self.width > 0 {
                    lemma_cell_bound(self.width as int, self.height as int, 0, y as int);
                } else {
                    assert(y * self.width == 0 && (y + 1) * self.width == 0) by (nonlinear_arith)
                        requires
                            self.width == 0,
                    ;
                }
            }
            y += 1;
        }
        proof {
            assert(self.height * self.width == self.width * self.height) by (nonlinear_arith);
            assert(pixels@ =~= untwiddled_pixels(
                self.pixels@,
                self.width as int,
                self.height as int,
            ));
        }
        Frame { width: self.width, height: self.height, og_fmt: self.og_fmt, pixels }
    }

    /// The pixels as bytes: red, green, blue, alpha of each in turn.
    pub fn as_rgba_bytes(&self) -> (r: Vec<u8>)
        ensures
            r@ == rgba_bytes(self.pixels@),
            r@.len() == self.pixels@.len() * 4,
    {
        let mut out: Vec<u8> = Vec::new();
        let n: usize = self.pixels.len();
        let mut i: usize = 0;
        while i < n
            invariant
                i <= n,
                n == self.pixels@.len(),
                out@.len() == i * 4,
                forall|k: int| 0 <= k < out@.len() ==> out@[k] == rgba_bytes(self.pixels@)[k],
            decreases n - i,
        {
            let p: Pixel = self.pixels[i];
            out.push(p.r);
            out.push(p.g);
            out.push(p.b);
            out.push(p.a);
            i += 1;
        }
        assert(out@ =~= rgba_bytes(self.pixels@));
        out
    }
}

/// The number of pixels of a frame of that size.
pub fn area(width: u32, height: u32) -> (r: u64)
    ensures
        r == width * height,
{
    assert(width * height <= 0xFFFF_FFFF * 0xFFFF_FFFF) by (nonlinear_arith)
        requires
            0 <= width <= 0xFFFF_FFFF,
            0 <= height <= 0xFFFF_FFFF,
    ;
    width as u64 * height as u64
}

/// The pixel of four bytes of `s` at `at`.
fn pixel_from_bytes(s: &[u8], at: usize, swap: bool, alpha: bool) -> (r: Pixel)
    requires
        at + (if alpha {
            4int
        } else {
            3int
        }) <= s@.len(),
    ensures
        r == pixel_of_bytes(s@, at as int, swap, alpha),
{
    let len: usize = s.len();
    Pixel {
        r: if swap {
            s[at + 2]
        } else {
            s[at]
        },
        g: s[at + 1],
        b: if swap {
            s[at]
        } else {
            s[at + 2]
        },
        a: if alpha {
            s[at + 3]
        } else {
            255
        },
    }
}

/// Exchanges red and blue where `swap`.
fn swap_channels(p: Pixel, swap: bool) -> (r: Pixel)
    ensures
        r == swapped(p, swap),
{
    if swap {
        Pixel { r: p.b, g: p.g, b: p.r, a: p.a }
    } else {
        p
    }
}

/// Pixel number `i` of raw data, or `None` where the palette lacks its entry.
fn pixel_from(fmt: PixelFormat, clut: &[u8], buf: &[u8], i: usize) -> (r: Option<Pixel>)
    requires
        fmt.is_convertible(),
        fmt.bits_per_pixel() == 32 ==> 4 * i + 4 <= buf@.len(),
        fmt.bits_per_pixel() == 24 ==> 3 * i + 3 <= buf@.len(),
        fmt.bits_per_pixel() == 16 ==> 2 * i + 2 <= buf@.len(),
        fmt.bits_per_pixel() == 8 ==> i < buf@.len(),
        fmt.bits_per_pixel() == 4 ==> i / 2 < buf@.len(),
    ensures
        r is Some == (fmt.is_palettized() ==> palette_covers(fmt, clut@, buf@, i as int)),
        r matches Some(p) ==> p == pixel_at(fmt, clut@, buf@, i as int),
{
    let total: usize = buf.len();
    let swap: bool = match fmt {
        PixelFormat::Bgra
        | PixelFormat::Bgrx
        | PixelFormat::Bgr
        | PixelFormat::Bgra16
        | PixelFormat::Bgr16
        | PixelFormat::Bgra4444
        | PixelFormat::BgraClut8
        | PixelFormat::BgrxClut8
        | PixelFormat::BgrClut8
        | PixelFormat::BgraClut4
        | PixelFormat::BgrxClut4
        | PixelFormat::BgrClut4 => true,
        _ => false,
    };
    let alpha: bool = match fmt {
        PixelFormat::Rgba
        | PixelFormat::Bgra
        | PixelFormat::RgbaClut8
        | PixelFormat::BgraClut8
        | PixelFormat::RgbaClut4
        | PixelFormat::BgraClut4 => true,
        _ => false,
    };
    match fmt {
        PixelFormat::Rgba | PixelFormat::Rgbx | PixelFormat::Bgra | PixelFormat::Bgrx => Some(
            pixel_from_bytes(buf, 4 * i, swap, alpha),
        ),
        PixelFormat::Rgb | PixelFormat::Bgr => Some(pixel_from_bytes(buf, 3 * i, swap, false)),
        PixelFormat::Rgba16 | PixelFormat::Bgra16 => {
            let lo: u8 = buf[2 * i];
            let hi: u8 = buf[2 * i + 1];
            Some(
                swap_channels(
                    Pixel {
                        r: bits_5_to_8(lo),
                        g: bits_5_to_8(lo >> 5 | hi << 3),
                        b: bits_5_to_8((hi >> 2) & 0x1F),
                        a: if hi & 0x80 != 0 {
                            0xFF
                        } else {
                            0
                        },
                    },
                    swap,
                ),
            )
        },
        PixelFormat::Rgb16 | PixelFormat::Bgr16 => {
            let lo: u8 = buf[2 * i];
            let hi: u8 = buf[2 * i + 1];
            Some(
                swap_channels(
                    Pixel {
                        r: bits_5_to_8(lo),
                        g: bits_6_to_8(lo >> 5 | hi << 3),
                        b: bits_5_to_8(hi >> 3),
                        a: 0xFF,
                    },
                    swap,
                ),
            )
        },
        PixelFormat::Rgba4444 | PixelFormat::Bgra4444 => {
            let lo: u8 = buf[2 * i];
            let hi: u8 = buf[2 * i + 1];
            Some(
                swap_channels(
                    Pixel {
                        r: bits_4_to_8(lo),
                        g: bits_4_to_8(lo >> 4),
                        b: bits_4_to_8(hi),
                        a: bits_4_to_8(hi >> 4),
                    },
                    swap,
                ),
            )
        },
        _ => {
            let four: bool = fmt.bpp() == 4;
            let index: usize = if four {
                if i % 2 == 0 {
                    (buf[i / 2] & 0xF) as usize
                } else {
                    (buf[i / 2] >> 4) as usize
                }
            } else {
                buf[i] as usize
            };
            let stride: usize = match fmt {
                PixelFormat::RgbClut8
                | PixelFormat::BgrClut8
                | PixelFormat::RgbClut4
                | PixelFormat::BgrClut4 => 3,
                _ => 4,
            };
            let reach: usize = if alpha {
                4
            } else {
                3
            };
            assert(index < 256) by {
                let b = buf@[i as int / 2];
                assert(b & 0xF < 256 && b >> 4 < 256) by (bit_vector);
            }
            if index * stride + reach <= clut.len() {
                Some(pixel_from_bytes(clut, index * stride, swap, alpha))
            } else {
                None
            }
        },
    }
}

/// Exchanges the second and the third run of eight entries in each block of 32
/// entries of a palette of four-byte entries, and leaves out what fills no block.
pub fn fix_clut(clut: &[u8]) -> (r: Vec<u8>)
    ensures
        r@ == shuffled_palette(clut@),
{
    let n: usize = (clut.len() / 128) * 128;
    let mut out: Vec<u8> = Vec::new();
    let mut i: usize = 0;
    while i < n
        invariant
            i <= n,
            n == (clut@.len() / 128) * 128,
            n <= clut@.len(),
            out@.len() == i,
            forall|k: int|
                0 <= k < i ==> out@[k] == clut@[shuffled_entry(k / 4) * 4 + k % 4],
        decreases n - i,
    {
        let entry: usize = i / 4;
        let within: usize = entry % 32;
        let source: usize = if 8 <= within && within < 16 {
            entry + 8
        } else if 16 <= within && within < 24 {
            entry - 8
        } else {
            entry
        };
        out.push(clut[source * 4 + i % 4]);
        i += 1;
    }
    assert(out@ =~= shuffled_palette(clut@));
    out
}

/// Spreads the bits of a number out, a zero bit before each.
pub fn bit_twiddle(n: u32) -> (r: u64)
    ensures
        r == twiddled(n as nat),
{
    let mut r: u128 = 0;
    let mut rest: u32 = n;
    let mut weight: u128 = 1;
    let mut i: u32 = 0;
    while i < 32
        invariant
            i <= 32,
            r < weight,
            weight == bit_weight(i as nat),
            r + spread_bits(rest as nat, (32 - i) as nat, weight as nat) == twiddled(n as nat),
        decreases 32 - i,
    {
        proof {
            lemma_weight(i as nat);
        }
        assert(((rest % 2) as nat) * (weight as nat) == (if rest % 2 == 1 {
            weight as nat
        } else {
            0nat
        })) by (nonlinear_arith)
            requires
                rest % 2 == 0 || rest % 2 == 1,
        ;
        if rest % 2 == 1 {
            r = r + weight;
        }
        rest = rest / 2;
        weight = weight * 4;
        i += 1;
    }
    proof {
        lemma_weight(31);
    }
    r as u64
}

/// The worth of bit `i` once the bits are spread out: four times that of the bit before it.
pub open spec fn bit_weight(i: nat) -> nat
    decreases i,
{
    if i == 0 {
        1
    } else {
        4 * bit_weight((i - 1) as nat)
    }
}

/// The worth of a bit below bit 32 is at most 2^62.
proof fn lemma_weight(i: nat)
    requires
        i < 32,
    ensures
        1 <= bit_weight(i) <= 0x4000_0000_0000_0000,
        bit_weight(31) == 0x4000_0000_0000_0000,
    decreases 31 - i,
{
    reveal_with_fuel(bit_weight, 33);
    assert(bit_weight(31) == 0x4000_0000_0000_0000);
    if i < 31 {
        lemma_weight(i + 1);
    }
}

} // verus!
