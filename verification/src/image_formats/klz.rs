use crate::byte_slice::{fits, le_u32, ByteSlice};
use crate::error::DecodeError;
use crate::image::{
    convertible,
    decoded_pixels,
    doubled_alpha,
    frame_views,
    image_outcome,
    fix_clut,
    shuffled_palette,
    Frame,
    FrameView,
    Image,
    ImageView,
    Pixel,
    PixelFormat,
};
use crate::outside::{
    inflate_outcome,
    png_decode,
    png_decoded,
    png_outcome,
    zlib_inflate,
    zlib_inflated,
    PngPicture,
    PngPictureView,
    PngStage,
};
use vstd::prelude::*;

verus! {

/// The name of the region that holds what kind of entry it is.
pub const SUBFORMAT_NAME: &'static str = "subformat name";

/// The four bytes `GXT5`.
pub open spec fn gxt5_magic() -> Seq<u8> {
    seq![0x47u8, 0x58u8, 0x54u8, 0x35u8]
}

/// The four bytes `FXT5`.
pub open spec fn fxt5_magic() -> Seq<u8> {
    seq![0x46u8, 0x58u8, 0x54u8, 0x35u8]
}

/// The kinds of entry.
#[derive(Clone, Copy, PartialEq, Eq, Structural, Debug)]
pub enum KlzKind {
    /// A PNG picture as it is.
    Gxt5,
    /// Compressed indices with a palette after them.
    Fxt5,
    /// A PNG picture whose red and blue have changed places.
    Bgra,
}

/// The layout that the color type and the bit depth of a PNG file stand for, where the
/// red and the blue of the file have changed places.
pub open spec fn png_swapped_format(color_type: u8, bit_depth: u8) -> Option<PixelFormat> {
    if color_type == 3 && bit_depth == 4 {
        Some(PixelFormat::BgraClut4)
    } else if color_type == 3 && bit_depth == 8 {
        Some(PixelFormat::BgraClut8)
    } else if color_type == 2 {
        Some(PixelFormat::Bgr)
    } else if color_type == 6 {
        Some(PixelFormat::Bgra)
    } else {
        None
    }
}

/// An alpha value shifted up by one bit within its byte, its lowest bit kept.
pub open spec fn klz_alpha(a: u8) -> u8 {
    a << 1 | (a & 1)
}

/// A pixel with its alpha value shifted up by one bit.
pub open spec fn klz_pixel(p: Pixel) -> Pixel {
    Pixel { r: p.r, g: p.g, b: p.b, a: klz_alpha(p.a) }
}

/// Whether a decoded picture is laid out as four bytes a pixel with nothing between
/// the rows, in a buffer of whole pixels that holds them all.
pub open spec fn png_is_rgba(p: PngPictureView) -> bool {
    p.line_size * p.height == p.width * p.height * 4 && p.pixels.len() % 4 == 0 && p.width
        * p.height * 4 <= p.pixels.len()
}

/// The frame of a decoded picture: its pixels as they are, or, where `swap`, with red
/// and blue exchanged and alpha shifted up, labelled by what the file declares.
pub open spec fn klz_png_frame(p: PngPictureView, swap: bool) -> Result<FrameView, DecodeError> {
    if !png_is_rgba(p) {
        Err(DecodeError::PixelData)
    } else if !swap {
        Ok(
            FrameView {
                width: p.width,
                height: p.height,
                og_fmt: PixelFormat::Rgba,
                pixels: decoded_pixels(
                    PixelFormat::Rgba,
                    p.width as int,
                    p.height as int,
                    Seq::empty(),
                    p.pixels,
                ),
            },
        )
    } else {
        match png_swapped_format(p.color_type, p.bit_depth) {
            None => Err(DecodeError::PngColorType),
            Some(label) => Ok(
                FrameView {
                    width: p.width,
                    height: p.height,
                    og_fmt: label,
                    pixels: decoded_pixels(
                        PixelFormat::Bgra,
                        p.width as int,
                        p.height as int,
                        Seq::empty(),
                        p.pixels,
                    ).map_values(|q: Pixel| klz_pixel(q)),
                },
            ),
        }
    }
}

/// The frame of an entry that holds a PNG picture, given what the picture decoded to.
pub open spec fn klz_picture_frame(decoded: Result<PngPictureView, PngStage>, swap: bool) -> Result<
    FrameView,
    DecodeError,
> {
    match decoded {
        Err(PngStage::Info) => Err(
            if swap {
                DecodeError::KlzBgraInfo
            } else {
                DecodeError::KlzGxt5Info
            },
        ),
        Err(PngStage::Frame) => Err(
            if swap {
                DecodeError::KlzBgraFrame
            } else {
                DecodeError::KlzGxt5Frame
            },
        ),
        Ok(p) => klz_png_frame(p, swap),
    }
}

/// The frame of an entry of compressed indices, given what they inflated to: indices
/// of eight bits into a palette of 256 colors of four bytes, stored shuffled and with
/// alpha on the scale to 128.
pub open spec fn klz_indexed_frame(
    inflated: Option<Seq<u8>>,
    width: u32,
    height: u32,
    palette: Seq<u8>,
) -> Result<FrameView, DecodeError> {
    match inflated {
        None => Err(DecodeError::KlzInflate),
        Some(indices) => {
            let clut = shuffled_palette(palette);
            if !convertible(PixelFormat::RgbaClut8, width as int, height as int, clut, indices) {
                Err(DecodeError::PixelData)
            } else {
                Ok(
                    FrameView {
                        width,
                        height,
                        og_fmt: PixelFormat::RgbaClut8,
                        pixels: doubled_alpha(
                            decoded_pixels(
                                PixelFormat::RgbaClut8,
                                width as int,
                                height as int,
                                clut,
                                indices,
                            ),
                        ),
                    },
                )
            }
        },
    }
}

/// The kind of the entry at `start`, from the four bytes at its offset 164.
pub open spec fn klz_kind(buf: Seq<u8>, start: int) -> KlzKind {
    if buf.subrange(start + 164, start + 168) == gxt5_magic() {
        KlzKind::Gxt5
    } else if buf.subrange(start + 164, start + 168) == fxt5_magic() {
        KlzKind::Fxt5
    } else {
        KlzKind::Bgra
    }
}

/// The frame of the entry of `size` bytes at `start`. The picture, or the compressed
/// indices, start at offset 188 of the entry; the palette is its last 1024 bytes; the
/// size of the inflated indices stands at offset 156, the size of the image at 180.
pub open spec fn klz_entry(buf: Seq<u8>, start: int, size: int) -> Result<FrameView, DecodeError> {
    if !fits(buf, start + 164, 4) {
        Err(DecodeError::ReadRegion { name: SUBFORMAT_NAME })
    } else if klz_kind(buf, start) == KlzKind::Fxt5 {
        if size < 188 + 1024 {
            Err(DecodeError::KlzEntrySize)
        } else {
            klz_indexed_frame(
                zlib_inflated(
                    buf.subrange(start + 188, start + size - 1024),
                    le_u32(buf, start + 156) as usize,
                ),
                le_u32(buf, start + 180),
                le_u32(buf, start + 184),
                buf.subrange(start + size - 1024, start + size),
            )
        }
    } else if size < 188 {
        Err(DecodeError::KlzEntrySize)
    } else {
        klz_picture_frame(
            png_decoded(buf.subrange(start + 188, start + size)),
            klz_kind(buf, start) == KlzKind::Bgra,
        )
    }
}

/// The distance from `pos` to the end of the bytes, or zero beyond it.
pub open spec fn klz_left(buf: Seq<u8>, pos: int) -> int {
    if pos < buf.len() {
        buf.len() - pos
    } else {
        0
    }
}

/// `acc` followed by the frames of the entries from `start` on. The size of an entry,
/// less 16, stands at its offset 16; the entries follow one another.
pub open spec fn klz_frames(buf: Seq<u8>, start: int, acc: Seq<FrameView>) -> Result<
    Seq<FrameView>,
    DecodeError,
>
    decreases klz_left(buf, start),
{
    let size = le_u32(buf, start + 16) + 16;
    if start >= buf.len() {
        Ok(acc)
    } else if !fits(buf, start + 16, 4) {
        Err(DecodeError::ReadField)
    } else if buf.len() < start + size {
        Err(DecodeError::KlzShort { declared: size as u64, available: (buf.len() - start) as u64 })
    } else {
        match klz_entry(buf, start, size) {
            Err(e) => Err(e),
            Ok(frame) => klz_frames(buf, start + size, acc.push(frame)),
        }
    }
}

/// What a file decodes to: the frames of its entries. A file without entries is a failure.
pub open spec fn klz_decoded(buf: Seq<u8>) -> Result<ImageView, DecodeError> {
    match klz_frames(buf, 0, Seq::empty()) {
        Err(e) => Err(e),
        Ok(frames) => if frames.len() == 0 {
            Err(DecodeError::KlzNoFrames)
        } else {
            Ok(ImageView { frames })
        },
    }
}

/// Shifts an alpha value up by one bit.
fn shift_alpha(a: u8) -> (r: u8)
    ensures
        r == klz_alpha(a),
{
    a << 1 | (a & 1)
}

/// Makes the frame of a decoded picture.
pub fn frame_from_png(picture: PngPicture, swap: bool) -> (r: Result<Frame, DecodeError>)
    ensures
        match klz_png_frame(picture@, swap) {
            Ok(v) => r matches Ok(f) && f@ == v && f.wf(),
            Err(e) => r matches Err(e2) && e2 == e,
        },
{
    let total: usize = picture.pixels.len();
    let area: u64 = crate::image::area(picture.width, picture.height);
    assert(picture.line_size * picture.height <= 0xFFFF_FFFF_FFFF_FFFF * 0xFFFF_FFFF)
        by (nonlinear_arith)
        requires
            0 <= picture.line_size <= 0xFFFF_FFFF_FFFF_FFFF,
            0 <= picture.height <= 0xFFFF_FFFF,
    ;
    if picture.line_size as u128 * picture.height as u128 != area as u128 * 4 || total % 4 != 0
        || area as u128 * 4 > total as u128 {
        return Err(DecodeError::PixelData);
    }
    let none: Vec<u8> = Vec::new();
    if !swap {
        return match Frame::try_new(
            PixelFormat::Rgba,
            picture.width,
            picture.height,
            none.as_slice(),
            picture.pixels.as_slice(),
        ) {
            Some(frame) => Ok(frame),
            None => Err(DecodeError::PixelData),
        };
    }
    let label: PixelFormat = if picture.color_type == 3 && picture.bit_depth == 4 {
        PixelFormat::BgraClut4
    } else if picture.color_type == 3 && picture.bit_depth == 8 {
        PixelFormat::BgraClut8
    } else if picture.color_type == 2 {
        PixelFormat::Bgr
    } else if picture.color_type == 6 {
        PixelFormat::Bgra
    } else {
        return Err(DecodeError::PngColorType);
    };
    let mut frame: Frame = match Frame::try_new(
        PixelFormat::Bgra,
        picture.width,
        picture.height,
        none.as_slice(),
        picture.pixels.as_slice(),
    ) {
        Some(frame) => frame,
        None => {
            return Err(DecodeError::PixelData);
        },
    };
    let ghost before = frame.pixels@;
    let n: usize = frame.pixels.len();
    let mut i: usize = 0;
    while i < n
        invariant
            i <= n,
            n == before.len(),
            frame.pixels@.len() == n,
            frame.width == picture.width,
            frame.height == picture.height,
            forall|k: int| 0 <= k < i ==> frame.pixels@[k] == klz_pixel(before[k]),
            forall|k: int| i <= k < n ==> frame.pixels@[k] == before[k],
        decreases n - i,
    {
        let p: Pixel = frame.pixels[i];
        frame.pixels.set(i, Pixel { r: p.r, g: p.g, b: p.b, a: shift_alpha(p.a) });
        i += 1;
    }
    assert(frame.pixels@ =~= before.map_values(|q: Pixel| klz_pixel(q)));
    Ok(frame.with_og_fmt(label))
}

/// Makes the frame of an entry that holds a PNG picture, given what the picture decoded to.
pub fn frame_from_picture(decoded: Result<PngPicture, PngStage>, swap: bool) -> (r: Result<
    Frame,
    DecodeError,
>)
    ensures
        match klz_picture_frame(png_outcome(decoded), swap) {
            Ok(v) => r matches Ok(f) && f@ == v && f.wf(),
            Err(e) => r matches Err(e2) && e2 == e,
        },
{
    match decoded {
        Err(PngStage::Info) => Err(
            if swap {
                DecodeError::KlzBgraInfo
            } else {
                DecodeError::KlzGxt5Info
            },
        ),
        Err(PngStage::Frame) => Err(
            if swap {
                DecodeError::KlzBgraFrame
            } else {
                DecodeError::KlzGxt5Frame
            },
        ),
        Ok(picture) => frame_from_png(picture, swap),
    }
}

/// Makes the frame of an entry of compressed indices, given what they inflated to.
pub fn frame_from_indices(inflated: Option<Vec<u8>>, width: u32, height: u32, palette: &[u8]) -> (r:
    Result<Frame, DecodeError>)
    ensures
        match klz_indexed_frame(inflate_outcome(inflated), width, height, palette@) {
            Ok(v) => r matches Ok(f) && f@ == v && f.wf(),
            Err(e) => r matches Err(e2) && e2 == e,
        },
{
    let indices: Vec<u8> = match inflated {
        Some(indices) => indices,
        None => {
            return Err(DecodeError::KlzInflate);
        },
    };
    let clut: Vec<u8> = fix_clut(palette);
    match Frame::try_new(
        PixelFormat::RgbaClut8,
        width,
        height,
        clut.as_slice(),
        indices.as_slice(),
    ) {
        Some(frame) => Ok(frame.with_double_alpha()),
        None => Err(DecodeError::PixelData),
    }
}

/// Reads the entry of `size` bytes at `start`.
fn read_entry(buf: &[u8], start: usize, size: usize) -> (r: Result<Frame, DecodeError>)
    requires
        16 <= size,
        start + size <= buf@.len(),
    ensures
        match klz_entry(buf@, start as int, size as int) {
            Ok(v) => r matches Ok(f) && f@ == v && f.wf(),
            Err(e) => r matches Err(e2) && e2 == e,
        },
{
    let total: usize = buf.len();
    if total - start < 168 {
        return Err(DecodeError::ReadRegion { name: SUBFORMAT_NAME });
    }
    let gxt5: [u8; 4] = [0x47, 0x58, 0x54, 0x35];
    let fxt5: [u8; 4] = [0x46, 0x58, 0x54, 0x35];
    assert(gxt5@ =~= gxt5_magic());
    assert(fxt5@ =~= fxt5_magic());
    let is_gxt5: bool = buf.starts_with_at(gxt5.as_slice(), start + 164);
    let is_fxt5: bool = buf.starts_with_at(fxt5.as_slice(), start + 164);
    if is_fxt5 && !is_gxt5 {
        if size < 188 + 1024 {
            return Err(DecodeError::KlzEntrySize);
        }
        let expected: usize = buf.read_u32(start + 156)? as usize;
        let width: u32 = buf.read_u32(start + 180)?;
        let height: u32 = buf.read_u32(start + 184)?;
        let palette_start: usize = start + size - 1024;
        let inflated: Option<Vec<u8>> = zlib_inflate(&buf[start + 188..palette_start], expected);
        frame_from_indices(inflated, width, height, &buf[palette_start..start + size])
    } else {
        if size < 188 {
            return Err(DecodeError::KlzEntrySize);
        }
        frame_from_picture(png_decode(&buf[start + 188..start + size]), !is_gxt5)
    }
}

/// Decodes a file.
pub fn decode(buf: &[u8]) -> (r: Result<Image, DecodeError>)
    ensures
        image_outcome(r) == klz_decoded(buf@),
        r matches Ok(image) ==> image.wf(),
{
    let mut frames: Vec<Frame> = Vec::new();
    assert(frame_views(frames@) =~= Seq::empty());
    let total: usize = buf.len();
    let mut start: usize = 0;
    while start < total
        invariant
            total == buf@.len(),
            crate::image::all_wf(frames@),
            klz_frames(buf@, start as int, frame_views(frames@)) == klz_frames(
                buf@,
                0,
                Seq::empty(),
            ),
        decreases klz_left(buf@, start as int),
    {
        if total - start < 20 {
            return Err(DecodeError::ReadField);
        }
        let declared: u32 = buf.read_u32(start + 16)?;
        if declared as u64 + 16 > (total - start) as u64 {
            return Err(
                DecodeError::KlzShort {
                    declared: declared as u64 + 16,
                    available: (total - start) as u64,
                },
            );
        }
        let size: usize = declared as usize + 16;
        let frame: Frame = read_entry(buf, start, size)?;
        let ghost before = frames@;
        frames.push(frame);
        proof {
            assert(frame_views(frames@) =~= frame_views(before).push(
                frames@[before.len() as int]@,
            ));
        }
        start += size;
    }
    if frames.len() == 0 {
        Err(DecodeError::KlzNoFrames)
    } else {
        Ok(Image { frames })
    }
}

} // verus!
