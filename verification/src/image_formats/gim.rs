use crate::byte_slice::{fits, le_u16, le_u32, unswizzled, ByteSlice};
use crate::error::DecodeError;
use crate::image::{
    convertible,
    decoded_pixels,
    frame_views,
    image_outcome,
    resized_pixels,
    Frame,
    FrameView,
    Image,
    ImageView,
    Pixel,
    PixelFormat,
};
use vstd::prelude::*;

verus! {

/// The header of one block of the tree that a file is.
#[derive(Clone, Copy, PartialEq, Eq, Structural, Debug)]
pub struct GimBlock {
    /// Where the block after this one starts, children counted as blocks.
    pub next: usize,
    /// Where the block after this one and its children starts.
    pub next_skipping_children: usize,
    /// What the block holds: 3 for a picture, 4 for an image, 5 for a palette.
    pub id: u16,
    /// Where the data of the block starts.
    pub data_start: usize,
}

/// The header of the block at `pos`: its kind in two bytes, then, from offset 4, three
/// distances from `pos` in four bytes each: to the end of the block with its children,
/// to the next block, and to the data.
pub open spec fn gim_block(buf: Seq<u8>, pos: int) -> Result<GimBlock, DecodeError> {
    if !fits(buf, pos, 16) || pos + le_u32(buf, pos + 4) > usize::MAX || pos + le_u32(buf, pos + 8)
        > usize::MAX || pos + le_u32(buf, pos + 12) > usize::MAX {
        Err(DecodeError::ReadField)
    } else {
        Ok(
            GimBlock {
                next: (pos + le_u32(buf, pos + 8)) as usize,
                next_skipping_children: (pos + le_u32(buf, pos + 4)) as usize,
                id: le_u16(buf, pos),
                data_start: (pos + le_u32(buf, pos + 12)) as usize,
            },
        )
    }
}

impl GimBlock {
    /// Reads the header of the block at `pos`.
    pub fn parse(buf: &[u8], pos: usize) -> (r: Result<GimBlock, DecodeError>)
        ensures
            r == gim_block(buf@, pos as int),
    {
        if buf.len() < 16 || pos > buf.len() - 16 {
            return Err(DecodeError::ReadField);
        }
        let to_next: u32 = buf.read_u32(pos + 8)?;
        let to_end: u32 = buf.read_u32(pos + 4)?;
        let id: u16 = buf.read_u16(pos)?;
        let to_data: u32 = buf.read_u32(pos + 12)?;
        let room: u64 = usize::MAX as u64 - pos as u64;
        if to_next as u64 > room || to_end as u64 > room || to_data as u64 > room {
            return Err(DecodeError::ReadField);
        }
        Ok(
            GimBlock {
                next: pos + to_next as usize,
                next_skipping_children: pos + to_end as usize,
                id,
                data_start: pos + to_data as usize,
            },
        )
    }
}

/// The distance from `pos` to the end of the bytes, or zero beyond it.
pub open spec fn gim_left(buf: Seq<u8>, pos: int) -> int {
    if pos < buf.len() {
        buf.len() - pos
    } else {
        0
    }
}

/// The palette in force after the children of a picture block, from `pos` up to `end`,
/// have been looked through: the 1024 bytes of the first palette block among them,
/// or else `current`. A block that does not lead on is a failure.
pub open spec fn gim_palette(buf: Seq<u8>, pos: int, end: int, current: Seq<u8>) -> Result<
    Seq<u8>,
    DecodeError,
>
    decreases gim_left(buf, pos),
{
    if pos >= end {
        Ok(current)
    } else {
        match gim_block(buf, pos) {
            Err(e) => Err(e),
            Ok(block) => {
                let start = block.data_start + le_u32(buf, block.data_start + 28);
                if block.id == 5 {
                    if !fits(buf, block.data_start + 28, 4) {
                        Err(DecodeError::ReadField)
                    } else if !fits(buf, start, 1024) {
                        Err(DecodeError::GimPalette)
                    } else {
                        Ok(buf.subrange(start, start + 1024))
                    }
                } else if block.next <= pos {
                    Err(DecodeError::GimBlockSize)
                } else {
                    gim_palette(buf, block.next as int, end, current)
                }
            },
        }
    }
}

/// The layout that a format code stands for.
pub open spec fn gim_format(code: u16) -> Option<PixelFormat> {
    if code == 0 {
        Some(PixelFormat::Rgb16)
    } else if code == 1 {
        Some(PixelFormat::Rgba16)
    } else if code == 3 {
        Some(PixelFormat::Rgba)
    } else if code == 4 {
        Some(PixelFormat::RgbaClut4)
    } else if code == 5 {
        Some(PixelFormat::RgbaClut8)
    } else {
        None
    }
}

/// The next multiple of `unit` at or after `n`.
pub open spec fn aligned(n: int, unit: int) -> int {
    ((n + unit - 1) / unit) * unit
}

/// The frame of an image block whose data starts at `data`. The block gives the format,
/// whether the pixels are block-interleaved, the size of the image and the alignment
/// of its rows in bytes; the rows are stored at the aligned width and cut to the width
/// of the image.
pub open spec fn gim_image(buf: Seq<u8>, data: int, palette: Seq<u8>) -> Result<
    FrameView,
    DecodeError,
> {
    let code = le_u16(buf, data + 4);
    let swizzled = le_u16(buf, data + 6) != 0;
    let width = le_u16(buf, data + 8);
    let height = le_u16(buf, data + 10);
    let alignment = le_u16(buf, data + 14);
    if !fits(buf, data + 4, 12) {
        Err(DecodeError::ReadField)
    } else {
        match gim_format(code) {
            None => Err(DecodeError::GimFormat { format: code }),
            Some(fmt) => {
                let unit = alignment * 8 / fmt.bits_per_pixel();
                let wide = aligned(width as int, unit);
                let start = data + le_u32(buf, data + 28);
                let stored = buf.skip(start);
                let raw = if swizzled {
                    unswizzled(stored, wide * fmt.bits_per_pixel() / 8, height as int)
                } else {
                    stored
                };
                let pixels = decoded_pixels(fmt, wide, height as int, palette, raw);
                if unit == 0 {
                    Err(DecodeError::GimAlignment)
                } else if !fits(buf, data + 28, 4) {
                    Err(DecodeError::ReadField)
                } else if start > buf.len() {
                    Err(DecodeError::GimPixels)
                } else if raw.len() > usize::MAX || !convertible(
                    fmt,
                    wide,
                    height as int,
                    palette,
                    raw,
                ) || pixels.len() != wide * height {
                    Err(DecodeError::PixelData)
                } else {
                    Ok(
                        FrameView {
                            width: width as u32,
                            height: height as u32,
                            og_fmt: fmt,
                            pixels: resized_pixels(
                                pixels,
                                wide,
                                height as int,
                                width as int,
                                height as int,
                            ),
                        },
                    )
                }
            },
        }
    }
}

/// `acc` followed by the frames of the blocks from `pos` on, with `palette` in force.
/// A picture block sets the palette for the image blocks after it; an image block
/// gives a frame. A block that does not lead on is a failure.
pub open spec fn gim_frames(buf: Seq<u8>, pos: int, palette: Seq<u8>, acc: Seq<FrameView>) -> Result<
    Seq<FrameView>,
    DecodeError,
>
    decreases gim_left(buf, pos),
{
    if pos >= buf.len() {
        Ok(acc)
    } else {
        match gim_block(buf, pos) {
            Err(e) => Err(e),
            Ok(block) => if block.id == 3 {
                match gim_palette(
                    buf,
                    block.data_start as int,
                    block.next_skipping_children as int,
                    palette,
                ) {
                    Err(e) => Err(e),
                    Ok(found) => if block.next <= pos {
                        Err(DecodeError::GimBlockSize)
                    } else {
                        gim_frames(buf, block.next as int, found, acc)
                    },
                }
            } else if block.id == 4 {
                match gim_image(buf, block.data_start as int, palette) {
                    Err(e) => Err(e),
                    Ok(frame) => if block.next <= pos {
                        Err(DecodeError::GimBlockSize)
                    } else {
                        gim_frames(buf, block.next as int, palette, acc.push(frame))
                    },
                }
            } else if block.next <= pos {
                Err(DecodeError::GimBlockSize)
            } else {
                gim_frames(buf, block.next as int, palette, acc)
            },
        }
    }
}

/// What a file decodes to: the frames of its blocks, which start at offset 16. A file
/// without frames is a failure.
pub open spec fn gim_decoded(buf: Seq<u8>) -> Result<ImageView, DecodeError> {
    match gim_frames(buf, 16, Seq::empty(), Seq::empty()) {
        Err(e) => Err(e),
        Ok(frames) => if frames.len() == 0 {
            Err(DecodeError::GimNoFrames)
        } else {
            Ok(ImageView { frames })
        },
    }
}

/// Looks through the children of a picture block for a palette.
fn find_palette(buf: &[u8], start: usize, end: usize, current: Vec<u8>) -> (r: Result<
    Vec<u8>,
    DecodeError,
>)
    ensures
        match gim_palette(buf@, start as int, end as int, current@) {
            Ok(p) => r matches Ok(v) && v@ == p,
            Err(e) => r matches Err(e2) && e2 == e,
        },
{
    let mut pos: usize = start;
    while pos < end
        invariant
            gim_palette(buf@, pos as int, end as int, current@) == gim_palette(
                buf@,
                start as int,
                end as int,
                current@,
            ),
        decreases gim_left(buf@, pos as int),
    {
        let block: GimBlock = GimBlock::parse(buf, pos)?;
        if block.id == 5 {
            if buf.len() < 32 || block.data_start > buf.len() - 32 {
                return Err(DecodeError::ReadField);
            }
            let offset: u32 = buf.read_u32(block.data_start + 28)?;
            if buf.len() < 1024 || offset as u64 > (buf.len() - 1024) as u64 || block.data_start
                > buf.len() - 1024 - offset as usize {
                return Err(DecodeError::GimPalette);
            }
            let at: usize = block.data_start + offset as usize;
            let mut palette: Vec<u8> = Vec::new();
            palette.extend_from_slice(&buf[at..at + 1024]);
            return Ok(palette);
        }
        if block.next <= pos {
            return Err(DecodeError::GimBlockSize);
        }
        pos = block.next;
    }
    Ok(current)
}

/// Reads the frame of an image block.
#[verifier::rlimit(60)]
fn read_image(buf: &[u8], data: usize, palette: &[u8]) -> (r: Result<Frame, DecodeError>)
    ensures
        match gim_image(buf@, data as int, palette@) {
            Ok(v) => r matches Ok(f) && f@ == v && f.wf(),
            Err(e) => r matches Err(e2) && e2 == e,
        },
{
    if buf.len() < 16 || data > buf.len() - 16 {
        return Err(DecodeError::ReadField);
    }
    let code: u16 = buf.read_u16(data + 4)?;
    let swizzled: bool = buf.read_u16(data + 6)? != 0;
    let width: u32 = buf.read_u16(data + 8)? as u32;
    let height: u32 = buf.read_u16(data + 10)? as u32;
    let alignment: u32 = buf.read_u16(data + 14)? as u32;
    let fmt: PixelFormat = if code == 0 {
        PixelFormat::Rgb16
    } else if code == 1 {
        PixelFormat::Rgba16
    } else if code == 3 {
        PixelFormat::Rgba
    } else if code == 4 {
        PixelFormat::RgbaClut4
    } else if code == 5 {
        PixelFormat::RgbaClut8
    } else {
        return Err(DecodeError::GimFormat { format: code });
    };
    let bits: u32 = fmt.bpp() as u32;
    let unit: u32 = if bits == 4 {
        alignment * 8 / 4
    } else if bits == 8 {
        alignment * 8 / 8
    } else if bits == 16 {
        alignment * 8 / 16
    } else {
        alignment * 8 / 32
    };
    if unit == 0 {
        return Err(DecodeError::GimAlignment);
    }
    proof {
        let a = width + unit - 1;
        vstd::arithmetic::div_mod::lemma_fundamental_div_mod(a, unit as int);
        assert(unit * (a / unit as int) == (a / unit as int) * unit) by (nonlinear_arith);
    }
    let wide: u32 = ((width + unit - 1) / unit) * unit;
    assert(0 <= wide * bits <= 0x3_0000 * 32) by (nonlinear_arith)
        requires
            0 <= wide <= 0x3_0000,
            0 <= bits <= 32,
    ;
    if buf.len() < 32 || data > buf.len() - 32 {
        return Err(DecodeError::ReadField);
    }
    let offset: u32 = buf.read_u32(data + 28)?;
    if offset as u64 > buf.len() as u64 || data > buf.len() - offset as usize {
        return Err(DecodeError::GimPixels);
    }
    let start: usize = data + offset as usize;
    let stored: &[u8] = &buf[start..buf.len()];
    assert(stored@ == buf@.skip(start as int));
    let frame: Option<Frame> = if swizzled {
        assert(wide * bits / 8 * height <= 0x20_0000 * 0xFFFF) by (nonlinear_arith)
            requires
                0 <= wide * bits / 8 <= 0x20_0000,
                0 <= height <= 0xFFFF,
        ;
        if (wide * bits / 8) as u64 * height as u64 > usize::MAX as u64 {
            return Err(DecodeError::PixelData);
        }
        let raw: Vec<u8> = stored.unswizzled_psp(wide * bits / 8, height);
        Frame::try_new(fmt, wide, height, palette, raw.as_slice())
    } else {
        Frame::try_new(fmt, wide, height, palette, stored)
    };
    let frame: Frame = match frame {
        Some(frame) => frame,
        None => {
            return Err(DecodeError::PixelData);
        },
    };
    assert(wide * height <= 0x20_0000 * 0xFFFF) by (nonlinear_arith)
        requires
            0 <= wide <= 0x20_0000,
            0 <= height <= 0xFFFF,
    ;
    if frame.pixels.len() as u64 != wide as u64 * height as u64 {
        return Err(DecodeError::PixelData);
    }
    assert(width * height <= wide * height) by (nonlinear_arith)
        requires
            0 <= width <= wide,
            0 <= height,
    ;
    Ok(frame.resized(width, height))
}

/// Decodes a file.
pub fn decode(buf: &[u8]) -> (r: Result<Image, DecodeError>)
    ensures
        image_outcome(r) == gim_decoded(buf@),
        r matches Ok(image) ==> image.wf(),
{
    let mut frames: Vec<Frame> = Vec::new();
    assert(frame_views(frames@) =~= Seq::empty());
    let mut palette: Vec<u8> = Vec::new();
    let mut pos: usize = 16;
    while pos < buf.len()
        invariant
            crate::image::all_wf(frames@),
            gim_frames(buf@, pos as int, palette@, frame_views(frames@)) == gim_frames(
                buf@,
                16,
                Seq::empty(),
                Seq::empty(),
            ),
        decreases gim_left(buf@, pos as int),
    {
        let block: GimBlock = GimBlock::parse(buf, pos)?;
        if block.id == 3 {
            palette = find_palette(buf, block.data_start, block.next_skipping_children, palette)?;
        } else if block.id == 4 {
            let frame: Frame = read_image(buf, block.data_start, palette.as_slice())?;
            let ghost before = frames@;
            frames.push(frame);
            proof {
                assert(frame_views(frames@) =~= frame_views(before).push(
                    frames@[before.len() as int]@,
                ));
            }
        }
        if block.next <= pos {
            return Err(DecodeError::GimBlockSize);
        }
        pos = block.next;
    }
    if frames.len() == 0 {
        Err(DecodeError::GimNoFrames)
    } else {
        Ok(Image { frames })
    }
}

} // verus!
