use crate::byte_slice::{fits, le_u16, le_u32, ByteSlice};
use crate::error::DecodeError;
use crate::image::{
    decoded_pixels,
    frame_views,
    image_outcome,
    Frame,
    FrameView,
    Image,
    ImageView,
    Pixel,
    PixelFormat,
};
use vstd::prelude::*;

verus! {

/// The kinds of pixel data that a file may hold.
#[derive(Clone, Copy, PartialEq, Eq, Structural, Debug)]
pub enum TimFormat {
    /// Four-bit indices into a palette of 16 colors.
    Clut4,
    /// Eight-bit indices into a palette of 256 colors.
    Clut8,
    /// 15-bit colors.
    Psx16,
    /// Three bytes a pixel.
    Rgb24,
}

/// The four bytes that every file starts with.
pub open spec fn tim_magic() -> Seq<u8> {
    seq![16u8, 0u8, 0u8, 0u8]
}

/// The kind of pixel data, from the tag at offset 4: its low two bits give the kind,
/// and bit 3, which says that a palette is there, is set for the two kinds with
/// indices and for no other. No other bit is set.
pub open spec fn tim_format(bytes: Seq<u8>) -> Option<TimFormat> {
    let tag = le_u32(bytes, 4);
    if !fits(bytes, 0, 4) || bytes.subrange(0, 4) != tim_magic() || !fits(bytes, 4, 4) {
        None
    } else if tag == 8 {
        Some(TimFormat::Clut4)
    } else if tag == 9 {
        Some(TimFormat::Clut8)
    } else if tag == 2 {
        Some(TimFormat::Psx16)
    } else if tag == 3 {
        Some(TimFormat::Rgb24)
    } else {
        None
    }
}

/// The pixel of a 15-bit color: five bits each of red, green and blue, red lowest,
/// each widened to eight bits by its own low three bits. Only the color zero is
/// transparent.
pub open spec fn psx_pixel(color: u16) -> Pixel {
    Pixel {
        r: ((color << 3) & 0b11111000 | (color & 0b111)) as u8,
        g: ((color >> 2) & 0b11111000 | (color >> 5 & 0b111)) as u8,
        b: ((color >> 7) & 0b11111000 | (color >> 10 & 0b111)) as u8,
        a: if color == 0 {
            0
        } else {
            255
        },
    }
}

/// Converts a 15-bit color.
pub fn psx_to_rgba(color: u16) -> (r: Pixel)
    ensures
        r == psx_pixel(color),
{
    Pixel {
        r: #[verifier::truncate]
        (((color << 3) & 0b11111000 | (color & 0b111)) as u8),
        g: #[verifier::truncate]
        (((color >> 2) & 0b11111000 | (color >> 5 & 0b111)) as u8),
        b: #[verifier::truncate]
        (((color >> 7) & 0b11111000 | (color >> 10 & 0b111)) as u8),
        a: if color == 0 {
            0
        } else {
            255
        },
    }
}

/// Tells the kind of pixel data of a file, or `None` for what is no such file.
pub fn decode_header(bytes: &[u8]) -> (r: Option<TimFormat>)
    ensures
        r == tim_format(bytes@),
{
    let magic: [u8; 4] = [16, 0, 0, 0];
    assert(magic@ =~= tim_magic());
    if !bytes.starts_with_at(magic.as_slice(), 0) {
        return None;
    }
    let tag: u32 = bytes.get_u32_at(4)?;
    if tag == 8 {
        Some(TimFormat::Clut4)
    } else if tag == 9 {
        Some(TimFormat::Clut8)
    } else if tag == 2 {
        Some(TimFormat::Psx16)
    } else if tag == 3 {
        Some(TimFormat::Rgb24)
    } else {
        None
    }
}

/// The palette index of pixel number `i`: a byte of the pixel data, or half of one,
/// the low half first.
pub open spec fn tim_index(buf: Seq<u8>, four: bool, pixel_start: int, i: int) -> int {
    if four {
        if i % 2 == 0 {
            (buf[pixel_start + i / 2] % 16) as int
        } else {
            (buf[pixel_start + i / 2] / 16) as int
        }
    } else {
        buf[pixel_start + i] as int
    }
}

/// Pixel number `i` of an image with a palette: the color that the palette, which
/// starts at offset 20, holds for its index.
pub open spec fn tim_indexed_pixel(buf: Seq<u8>, four: bool, pixel_start: int, i: int) -> Pixel {
    psx_pixel(le_u16(buf, 20 + 2 * tim_index(buf, four, pixel_start, i)))
}

/// The frame of an image with a palette of 16 colors, where `four`, or of 256. The
/// size of the pixel data stands in the four bytes before it, the width in units of
/// 16 bits.
pub open spec fn tim_indexed(buf: Seq<u8>, four: bool) -> Result<FrameView, DecodeError> {
    let pixel_start: int = if four {
        64
    } else {
        544
    };
    let vram_width = le_u16(buf, pixel_start - 4);
    let height = le_u16(buf, pixel_start - 2);
    let width = if four {
        vram_width * 4
    } else {
        vram_width * 2
    };
    if buf.len() < pixel_start - 12 {
        Err(DecodeError::PixelData)
    } else if !fits(buf, pixel_start - 4, 4) {
        Err(DecodeError::ReadField)
    } else if buf.len() < pixel_start + vram_width * height {
        Err(DecodeError::TimPixels)
    } else if buf.len() < pixel_start + vram_width * 2 * height {
        Err(DecodeError::PixelData)
    } else if width * height > usize::MAX {
        Err(DecodeError::ImageSize)
    } else {
        Ok(
            FrameView {
                width: width as u32,
                height: height as u32,
                og_fmt: if four {
                    PixelFormat::PsxClut4
                } else {
                    PixelFormat::PsxClut8
                },
                pixels: Seq::new(
                    (width * height) as nat,
                    |i: int| tim_indexed_pixel(buf, four, pixel_start, i),
                ),
            },
        )
    }
}

/// The frame of an image of three bytes a pixel. The size of the pixel data stands
/// at offset 16, the width in bytes.
pub open spec fn tim_direct(buf: Seq<u8>) -> Result<FrameView, DecodeError> {
    let vram_width = le_u16(buf, 16);
    let height = le_u16(buf, 18);
    if !fits(buf, 16, 4) {
        Err(DecodeError::ReadField)
    } else if buf.len() < 20 + vram_width * height {
        Err(DecodeError::TimPixels)
    } else {
        Ok(
            FrameView {
                width: (vram_width / 3) as u32,
                height: height as u32,
                og_fmt: PixelFormat::Rgb,
                pixels: decoded_pixels(
                    PixelFormat::Rgb,
                    vram_width as int / 3,
                    height as int,
                    Seq::empty(),
                    buf.subrange(20, 20 + vram_width * height),
                ),
            },
        )
    }
}

/// What a file decodes to: an image of one frame.
pub open spec fn tim_decoded(buf: Seq<u8>) -> Result<ImageView, DecodeError> {
    let frame = match tim_format(buf) {
        None => Err(DecodeError::TimHeader),
        Some(TimFormat::Clut4) => tim_indexed(buf, true),
        Some(TimFormat::Clut8) => tim_indexed(buf, false),
        Some(TimFormat::Rgb24) => tim_direct(buf),
        Some(TimFormat::Psx16) => Err(DecodeError::TimUnsupported),
    };
    match frame {
        Err(e) => Err(e),
        Ok(frame) => Ok(ImageView { frames: seq![frame] }),
    }
}

/// Reads an image with a palette.
fn read_indexed(buf: &[u8], four: bool) -> (r: Result<Frame, DecodeError>)
    ensures
        match tim_indexed(buf@, four) {
            Ok(v) => r matches Ok(f) && f@ == v && f.wf(),
            Err(e) => r matches Err(e2) && e2 == e,
        },
{
    let pixel_start: usize = if four {
        64
    } else {
        544
    };
    let total: u64 = buf.len() as u64;
    if buf.len() < pixel_start - 12 {
        return Err(DecodeError::PixelData);
    }
    let vram_width: u64 = buf.read_u16(pixel_start - 4)? as u64;
    let height: u64 = buf.read_u16(pixel_start - 2)? as u64;
    assert(vram_width * height <= 0xFFFF * 0xFFFF) by (nonlinear_arith)
        requires
            0 <= vram_width <= 0xFFFF,
            0 <= height <= 0xFFFF,
    ;
    assert(vram_width * 2 * height == 2 * (vram_width * height)) by (nonlinear_arith);
    assert(vram_width * 4 * height == 4 * (vram_width * height)) by (nonlinear_arith);
    let area: u64 = vram_width * height;
    if total < pixel_start as u64 + area {
        return Err(DecodeError::TimPixels);
    }
    if total < pixel_start as u64 + 2 * area {
        return Err(DecodeError::PixelData);
    }
    let width: u64 = if four {
        vram_width * 4
    } else {
        vram_width * 2
    };
    if four && 4 * area > usize::MAX as u64 {
        return Err(DecodeError::ImageSize);
    }
    let count: usize = if four {
        (4 * area) as usize
    } else {
        (2 * area) as usize
    };
    let mut pixels: Vec<Pixel> = Vec::new();
    let mut i: usize = 0;
    while i < count
        invariant
            i <= count,
            pixel_start == (if four {
                64int
            } else {
                544int
            }),
            count == (if four {
                4 * area
            } else {
                2 * area
            }),
            pixel_start + 2 * area <= buf@.len() == total,
            pixels@.len() == i,
            forall|k: int|
                0 <= k < i ==> pixels@[k] == tim_indexed_pixel(buf@, four, pixel_start as int, k),
        decreases count - i,
    {
        let len: usize = buf.len();
        let index: usize = if four {
            let two: u8 = buf[pixel_start + i / 2];
            if i % 2 == 0 {
                (two % 16) as usize
            } else {
                (two / 16) as usize
            }
        } else {
            buf[pixel_start + i] as usize
        };
        let color: u16 = buf[20 + 2 * index] as u16 + buf[20 + 2 * index + 1] as u16 * 0x100;
        pixels.push(psx_to_rgba(color));
        i += 1;
    }
    assert(pixels@ =~= Seq::new(
        (width * height) as nat,
        |i: int| tim_indexed_pixel(buf@, four, pixel_start as int, i),
    ));
    Ok(
        Frame {
            width: width as u32,
            height: height as u32,
            og_fmt: if four {
                PixelFormat::PsxClut4
            } else {
                PixelFormat::PsxClut8
            },
            pixels,
        },
    )
}

/// Reads an image of three bytes a pixel.
fn read_direct(buf: &[u8]) -> (r: Result<Frame, DecodeError>)
    ensures
        match tim_direct(buf@) {
            Ok(v) => r matches Ok(f) && f@ == v && f.wf(),
            Err(e) => r matches Err(e2) && e2 == e,
        },
{
    let vram_width: u64 = buf.read_u16(16)? as u64;
    let height: u64 = buf.read_u16(18)? as u64;
    assert(vram_width * height <= 0xFFFF * 0xFFFF) by (nonlinear_arith)
        requires
            0 <= vram_width <= 0xFFFF,
            0 <= height <= 0xFFFF,
    ;
    let size: u64 = vram_width * height;
    if (buf.len() as u64) < 20 + size {
        return Err(DecodeError::TimPixels);
    }
    let width: u64 = vram_width / 3;
    assert(width * height * 3 <= vram_width * height) by (nonlinear_arith)
        requires
            width * 3 <= vram_width,
            0 <= height,
    ;
    let frame: Frame = Frame::from_rgb(
        width as u32,
        height as u32,
        &buf[20..20 + size as usize],
    );
    Ok(frame)
}

/// Decodes a file.
pub fn decode(buf: &[u8]) -> (r: Result<Image, DecodeError>)
    ensures
        image_outcome(r) == tim_decoded(buf@),
        r matches Ok(image) ==> image.wf(),
{
    let frame: Frame = match decode_header(buf) {
        None => {
            return Err(DecodeError::TimHeader);
        },
        Some(TimFormat::Clut4) => read_indexed(buf, true)?,
        Some(TimFormat::Clut8) => read_indexed(buf, false)?,
        Some(TimFormat::Rgb24) => read_direct(buf)?,
        Some(TimFormat::Psx16) => {
            return Err(DecodeError::TimUnsupported);
        },
    };
    let mut frames: Vec<Frame> = Vec::new();
    frames.push(frame);
    assert(frame_views(frames@) =~= seq![frames@[0]@]);
    Ok(Image { frames })
}

} // verus!
