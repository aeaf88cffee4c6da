use crate::byte_slice::{fits, le_u16, le_u32, ByteSlice};
use crate::error::DecodeError;
use crate::image::{
    clear_pixel,
    convertible,
    decoded_pixels,
    doubled_alpha,
    frame_views,
    image_outcome,
    pasted_pixels,
    Frame,
    FrameView,
    Image,
    ImageView,
    Pixel,
    PixelFormat,
};
use crate::image_formats::klz::{png_is_rgba, png_swapped_format};
use crate::outside::{png_decode, png_decoded, png_outcome, PngPicture, PngPictureView, PngStage};
use vstd::prelude::*;

verus! {

/// The three sections that the header of a file points to.
#[derive(Clone, Copy, PartialEq, Eq, Structural, Debug)]
pub struct BipHeader {
    /// Where the first palette starts.
    pub palette_section: u32,
    /// Where the pixels start.
    pub pixel_section: u32,
    /// Where the index of frames and tiles starts.
    pub index_section: u32,
}

/// The unsigned 8-bit integer at `at`, which may lie anywhere.
pub open spec fn wide_u8(b: Seq<u8>, at: int) -> Result<u8, DecodeError> {
    if fits(b, at, 1) {
        Ok(b[at])
    } else {
        Err(DecodeError::ReadField)
    }
}

/// The unsigned 16-bit integer, little-endian, at `at`, which may lie anywhere.
pub open spec fn wide_u16(b: Seq<u8>, at: int) -> Result<u16, DecodeError> {
    if fits(b, at, 2) {
        Ok(le_u16(b, at))
    } else {
        Err(DecodeError::ReadField)
    }
}

/// The unsigned 32-bit integer, little-endian, at `at`, which may lie anywhere.
pub open spec fn wide_u32(b: Seq<u8>, at: int) -> Result<u32, DecodeError> {
    if fits(b, at, 4) {
        Ok(le_u32(b, at))
    } else {
        Err(DecodeError::ReadField)
    }
}

/// The header. The first word gives its length in words; its last two words point
/// to the palettes and to the pixels, its second word to the index.
pub open spec fn bip_header(b: Seq<u8>) -> Result<BipHeader, DecodeError> {
    let end = le_u32(b, 0) * 4;
    if !fits(b, 0, 8) || end < 8 || !fits(b, end - 8, 8) {
        Err(DecodeError::ReadField)
    } else {
        Ok(
            BipHeader {
                palette_section: le_u32(b, end - 8),
                pixel_section: le_u32(b, end - 4),
                index_section: le_u32(b, 4),
            },
        )
    }
}

/// The side of a block as it counts in the image: 30 pixels with a palette, else 16,
/// or 14 in the second flavor of the format.
pub open spec fn real_block(paletted: bool, second: bool) -> int {
    if paletted {
        30
    } else if second {
        14
    } else {
        16
    }
}

/// The side of a block as it is stored: 32 pixels with a palette, else 16.
pub open spec fn stored_block(paletted: bool) -> int {
    if paletted {
        32
    } else {
        16
    }
}

/// The number of bytes of a stored pixel: one with a palette, else four.
pub open spec fn stored_pixel(paletted: bool) -> int {
    if paletted {
        1
    } else {
        4
    }
}

/// Where a stored block starts. The blocks are stored as an image 512 pixels wide; a
/// block whose border is repeated starts one row and one pixel in.
pub open spec fn block_start(h: BipHeader, paletted: bool, second: bool, src_x: int, src_y: int) -> int {
    h.pixel_section + (src_y * (512 * stored_block(paletted)) + src_x * stored_block(paletted))
        * stored_pixel(paletted) + (if real_block(paletted, second) != stored_block(paletted) {
        513 * stored_pixel(paletted)
    } else {
        0
    })
}

/// The pixels of one row of a block, read at `src`.
pub open spec fn block_row(b: Seq<u8>, paletted: bool, second: bool, palette_at: int, src: int) -> Seq<
    Pixel,
> {
    if paletted {
        decoded_pixels(
            PixelFormat::RgbaClut8,
            real_block(paletted, second),
            1,
            b.skip(palette_at),
            b.skip(src),
        )
    } else {
        doubled_alpha(
            decoded_pixels(
                PixelFormat::Rgba,
                real_block(paletted, second),
                1,
                Seq::empty(),
                b.skip(src),
            ),
        )
    }
}

/// The canvas, `width` pixels wide, after the rows from `k` on of one block have been
/// pasted at column `x`, rows from `y` on. The rows are read 512 pixels apart from `src` on;
/// reading stops at the first row that does not lie well within the file.
pub open spec fn bip_block(
    b: Seq<u8>,
    canvas: Seq<Pixel>,
    width: int,
    paletted: bool,
    second: bool,
    palette_at: int,
    src: int,
    x: int,
    y: int,
    k: int,
) -> Result<Seq<Pixel>, DecodeError>
    decreases real_block(paletted, second) - k,
{
    let side = real_block(paletted, second);
    if k >= side || src + side * stored_pixel(paletted) >= b.len() {
        Ok(canvas)
    } else if paletted && !convertible(
        PixelFormat::RgbaClut8,
        side,
        1,
        b.skip(palette_at),
        b.skip(src),
    ) {
        Err(DecodeError::PixelData)
    } else {
        bip_block(
            b,
            pasted_pixels(
                canvas,
                width,
                x,
                y + k,
                block_row(b, paletted, second, palette_at, src),
                side,
                1,
            ),
            width,
            paletted,
            second,
            palette_at,
            src + 512 * stored_pixel(paletted),
            x,
            y,
            k + 1,
        )
    }
}

/// Where a walk over the stored blocks stands, and the canvas so far.
pub struct BipBlocks {
    pub canvas: Seq<Pixel>,
    pub src_x: int,
    pub src_y: int,
}

/// The canvas and the place among the stored blocks after the blocks from `i` on of a
/// tile of `across` by `down` blocks have been pasted. The blocks of a tile are taken
/// from the store one after another and fill the tile row by row.
pub open spec fn bip_blocks(
    b: Seq<u8>,
    h: BipHeader,
    at: BipBlocks,
    width: int,
    paletted: bool,
    second: bool,
    palette_at: int,
    tile_x: int,
    tile_y: int,
    across: int,
    count: int,
    i: int,
    dst_x: int,
    dst_y: int,
) -> Result<BipBlocks, DecodeError>
    decreases count - i,
{
    let side = real_block(paletted, second);
    if i >= count {
        Ok(at)
    } else {
        match bip_block(
            b,
            at.canvas,
            width,
            paletted,
            second,
            palette_at,
            block_start(h, paletted, second, at.src_x, at.src_y),
            tile_x + dst_x * side,
            tile_y + dst_y * side,
            0,
        ) {
            Err(e) => Err(e),
            Ok(canvas) => bip_blocks(
                b,
                h,
                BipBlocks {
                    canvas,
                    src_x: if at.src_x + 1 >= 512int / stored_block(paletted) {
                        0
                    } else {
                        at.src_x + 1
                    },
                    src_y: if at.src_x + 1 >= 512int / stored_block(paletted) {
                        at.src_y + 1
                    } else {
                        at.src_y
                    },
                },
                width,
                paletted,
                second,
                palette_at,
                tile_x,
                tile_y,
                across,
                count,
                i + 1,
                if dst_x + 1 >= across {
                    0
                } else {
                    dst_x + 1
                },
                if dst_x + 1 >= across {
                    dst_y + 1
                } else {
                    dst_y
                },
            ),
        }
    }
}

/// Where a walk over the tiles of a frame stands.
pub struct BipTiles {
    /// Where the record of the next tile starts.
    pub index: int,
    /// The frame so far, once a tile has begun it.
    pub frame: Option<FrameView>,
    /// The place among the stored blocks.
    pub src_x: int,
    pub src_y: int,
    /// Where the palette of the next frame starts.
    pub next_palette: int,
}

/// The walk after a tile of blocks. Its record gives, from offset 4 on, the column and
/// the row of the tile in blocks and its size in blocks. A tile that reaches a block
/// or more beyond the frame is a failure: the file is of the other flavor.
#[verifier::opaque]
pub open spec fn bip_block_tile(
    b: Seq<u8>,
    h: BipHeader,
    second: bool,
    palette_at: int,
    paletted: bool,
    width: u16,
    height: u16,
    t: BipTiles,
) -> Result<BipTiles, DecodeError> {
    let side = real_block(paletted, second);
    let tile_x = b[t.index + 4] * side;
    let tile_y = b[t.index + 5] * side;
    let across = b[t.index + 6] as int;
    let down = b[t.index + 7] as int;
    let frame = match t.frame {
        Some(frame) => frame,
        None => FrameView {
            width: width as u32,
            height: height as u32,
            og_fmt: if paletted {
                PixelFormat::RgbaClut8
            } else {
                PixelFormat::Rgba
            },
            pixels: Seq::new((width * height) as nat, |i: int| clear_pixel()),
        },
    };
    if !fits(b, t.index + 4, 4) {
        Err(DecodeError::ReadField)
    } else if tile_x + across * side >= width + side || tile_y + down * side >= height + side {
        Err(DecodeError::BipTileOverflow)
    } else if palette_at > b.len() {
        Err(DecodeError::BipPalette)
    } else if frame.width * frame.height > usize::MAX {
        Err(DecodeError::ImageSize)
    } else {
        match bip_blocks(
            b,
            h,
            BipBlocks { canvas: frame.pixels, src_x: t.src_x, src_y: t.src_y },
            frame.width as int,
            paletted,
            second,
            palette_at,
            tile_x,
            tile_y,
            across,
            across * down,
            0,
            0,
            0,
        ) {
            Err(e) => Err(e),
            Ok(done) => Ok(
                BipTiles {
                    index: t.index + 8,
                    frame: Some(FrameView { pixels: done.canvas, ..frame }),
                    src_x: done.src_x,
                    src_y: done.src_y,
                    next_palette: if paletted {
                        palette_at + 1024
                    } else {
                        t.next_palette
                    },
                },
            ),
        }
    }
}

/// The frame after the picture of a tile has been pasted at column `x`, row `y`. The
/// picture has blue first and alpha on the scale to 128. A frame that no tile has
/// begun takes its size from the record and its label from the picture.
#[verifier::opaque]
pub open spec fn bip_picture_frame(
    frame: Option<FrameView>,
    full_width: u16,
    full_height: u16,
    decoded: Result<PngPictureView, PngStage>,
    x: int,
    y: int,
) -> Result<FrameView, DecodeError> {
    match decoded {
        Err(PngStage::Info) => Err(DecodeError::BipPngInfo),
        Err(PngStage::Frame) => Err(DecodeError::BipPngFrame),
        Ok(p) => {
            let tile = doubled_alpha(
                decoded_pixels(
                    PixelFormat::Bgra,
                    p.width as int,
                    p.height as int,
                    Seq::empty(),
                    p.pixels,
                ),
            );
            if !png_is_rgba(p) {
                Err(DecodeError::PixelData)
            } else if frame is None && png_swapped_format(p.color_type, p.bit_depth) is None {
                Err(DecodeError::PngColorType)
            } else if frame is None && full_width * full_height > usize::MAX {
                Err(DecodeError::ImageSize)
            } else {
                let base = match frame {
                    Some(frame) => frame,
                    None => FrameView {
                        width: full_width as u32,
                        height: full_height as u32,
                        og_fmt: png_swapped_format(p.color_type, p.bit_depth)->Some_0,
                        pixels: Seq::new((full_width * full_height) as nat, |i: int| clear_pixel()),
                    },
                };
                if x > u32::MAX || y > u32::MAX {
                    Ok(base)
                } else {
                    Ok(
                        FrameView {
                            pixels: pasted_pixels(
                                base.pixels,
                                base.width as int,
                                x,
                                y,
                                tile,
                                p.width as int,
                                p.height as int,
                            ),
                            ..base
                        },
                    )
                }
            }
        },
    }
}

/// The walk after a tile that holds a PNG picture. Its record gives the place of the
/// tile at offset 8, the size of the frame at 20, and at 24 where, from the start of
/// the pixels, the data of the tile lie. These give their own length less 8 at offset
/// 32 and a further shift of the tile at 116; the picture starts at their offset 132.
#[verifier::opaque]
pub open spec fn bip_picture_tile(b: Seq<u8>, h: BipHeader, t: BipTiles) -> Result<
    BipTiles,
    DecodeError,
> {
    let data = h.pixel_section + le_u32(b, t.index + 24);
    let end = data + 8 + le_u32(b, data + 32);
    if !fits(b, t.index + 8, 4) || !fits(b, t.index + 20, 8) || !fits(b, data + 32, 4) || !fits(
        b,
        data + 116,
        8,
    ) {
        Err(DecodeError::ReadField)
    } else if data + 132 > end || end > b.len() {
        Err(DecodeError::BipPngRange)
    } else {
        match bip_picture_frame(
            t.frame,
            le_u16(b, t.index + 20),
            le_u16(b, t.index + 22),
            png_decoded(b.subrange(data + 132, end)),
            le_u16(b, t.index + 8) + le_u32(b, data + 116),
            le_u16(b, t.index + 10) + le_u32(b, data + 120),
        ) {
            Err(e) => Err(e),
            Ok(frame) => Ok(BipTiles { index: t.index + 28, frame: Some(frame), ..t }),
        }
    }
}

/// The walk after up to `remaining` tiles. The record of a tile starts with its
/// length in words: 2 for a tile of blocks, 7 for one that holds a PNG picture, 0
/// where the tiles of the frame end early.
pub open spec fn bip_tiles(
    b: Seq<u8>,
    h: BipHeader,
    second: bool,
    palette_at: int,
    paletted: bool,
    width: u16,
    height: u16,
    t: BipTiles,
    remaining: int,
) -> Result<BipTiles, DecodeError>
    decreases remaining,
{
    if remaining <= 0 {
        Ok(t)
    } else {
        match wide_u16(b, t.index) {
            Err(e) => Err(e),
            Ok(size) => if size == 0 {
                Ok(t)
            } else if size == 2 {
                match bip_block_tile(b, h, second, palette_at, paletted, width, height, t) {
                    Err(e) => Err(e),
                    Ok(next) => bip_tiles(
                        b,
                        h,
                        second,
                        palette_at,
                        paletted,
                        width,
                        height,
                        next,
                        remaining - 1,
                    ),
                }
            } else if size == 7 {
                match bip_picture_tile(b, h, t) {
                    Err(e) => Err(e),
                    Ok(next) => bip_tiles(
                        b,
                        h,
                        second,
                        palette_at,
                        paletted,
                        width,
                        height,
                        next,
                        remaining - 1,
                    ),
                }
            } else {
                Err(DecodeError::BipTileSize { size })
            },
        }
    }
}

/// Where a walk over the frames of a file stands.
pub struct BipFrames {
    /// Where the record of the next frame starts.
    pub index: int,
    /// Where the palette of the next frame starts.
    pub palette: int,
    /// The place among the stored blocks.
    pub src_x: int,
    pub src_y: int,
    /// The frames so far.
    pub frames: Seq<FrameView>,
}

/// The distance from `pos` to the end of the bytes, or zero beyond it.
pub open spec fn bip_left(b: Seq<u8>, pos: int) -> int {
    if pos < b.len() {
        b.len() - pos
    } else {
        0
    }
}

/// The frames of a file, from where the walk stands. The record of a frame gives the
/// number of its tiles, whether it has a palette, and its size at offset 8; the records
/// of its tiles follow at offset 12. A frame without tiles ends the file.
pub open spec fn bip_frames(b: Seq<u8>, h: BipHeader, second: bool, w: BipFrames) -> Result<
    Seq<FrameView>,
    DecodeError,
>
    decreases bip_left(b, w.index),
{
    let paletted = le_u16(b, w.index + 2) != 0;
    let width = le_u16(b, w.index + 8);
    let height = le_u16(b, w.index + 10);
    if !fits(b, w.index, 2) {
        Err(DecodeError::ReadField)
    } else if le_u16(b, w.index) == 0 {
        Ok(w.frames)
    } else if !fits(b, w.index, 12) {
        Err(DecodeError::ReadField)
    } else {
        match bip_tiles(
            b,
            h,
            second,
            w.palette,
            paletted,
            width,
            height,
            BipTiles {
                index: w.index + 12,
                frame: None,
                src_x: w.src_x,
                src_y: w.src_y,
                next_palette: 0,
            },
            le_u16(b, w.index) as int,
        ) {
            Err(e) => Err(e),
            Ok(t) => if t.index <= w.index {
                Err(DecodeError::ReadField)
            } else {
                bip_frames(
                    b,
                    h,
                    second,
                    BipFrames {
                        index: t.index,
                        palette: t.next_palette,
                        src_x: t.src_x,
                        src_y: t.src_y,
                        frames: match t.frame {
                            Some(frame) => w.frames.push(frame),
                            None => w.frames,
                        },
                    },
                )
            },
        }
    }
}

/// What a file decodes to when read as the first flavor, or as the second.
pub open spec fn bip_pass(b: Seq<u8>, second: bool) -> Result<ImageView, DecodeError> {
    match bip_header(b) {
        Err(e) => Err(e),
        Ok(h) => match bip_frames(
            b,
            h,
            second,
            BipFrames {
                index: h.index_section as int,
                palette: h.palette_section as int,
                src_x: 0,
                src_y: 0,
                frames: Seq::empty(),
            },
        ) {
            Err(e) => Err(e),
            Ok(frames) => if frames.len() == 0 {
                Err(DecodeError::BipNoFrames)
            } else {
                Ok(ImageView { frames })
            },
        },
    }
}

/// What a file decodes to: it is read as the first flavor, and again as the second
/// where a tile reaches too far beyond its frame.
pub open spec fn bip_decoded(b: Seq<u8>) -> Result<ImageView, DecodeError> {
    if bip_pass(b, false) == Err::<ImageView, DecodeError>(DecodeError::BipTileOverflow) {
        bip_pass(b, true)
    } else {
        bip_pass(b, false)
    }
}

/// Reads the unsigned 8-bit integer at `at`.
fn u8_at(b: &[u8], at: u128) -> (r: Result<u8, DecodeError>)
    ensures
        r == wide_u8(b@, at as int),
{
    if at < b.len() as u128 {
        Ok(b[at as usize])
    } else {
        Err(DecodeError::ReadField)
    }
}

/// Reads the unsigned 16-bit integer, little-endian, at `at`.
fn u16_at(b: &[u8], at: u128) -> (r: Result<u16, DecodeError>)
    ensures
        r == wide_u16(b@, at as int),
{
    let total: usize = b.len();
    if at <= usize::MAX as u128 {
        b.read_u16(at as usize)
    } else {
        Err(DecodeError::ReadField)
    }
}

/// Reads the unsigned 32-bit integer, little-endian, at `at`.
fn u32_at(b: &[u8], at: u128) -> (r: Result<u32, DecodeError>)
    ensures
        r == wide_u32(b@, at as int),
{
    let total: usize = b.len();
    if at <= usize::MAX as u128 {
        b.read_u32(at as usize)
    } else {
        Err(DecodeError::ReadField)
    }
}

/// Reads the header of a file.
pub fn read_header(b: &[u8]) -> (r: Result<BipHeader, DecodeError>)
    ensures
        r == bip_header(b@),
{
    let words: u32 = b.read_u32(0)?;
    let index_section: u32 = b.read_u32(4)?;
    let end: u64 = words as u64 * 4;
    if end < 8 {
        return Err(DecodeError::ReadField);
    }
    let palette_section: u32 = u32_at(b, (end - 8) as u128)?;
    let pixel_section: u32 = u32_at(b, (end - 4) as u128)?;
    Ok(BipHeader { palette_section, pixel_section, index_section })
}

/// The largest place of a record that a walk can reach.
pub const INDEX_LIMIT: u128 = 0x1_0000_0000_0000_0040;

/// Pastes the rows of one block.
fn paste_block(
    b: &[u8],
    frame: &mut Frame,
    paletted: bool,
    second: bool,
    palette_at: usize,
    src: u128,
    x: u32,
    y: u32,
) -> (r: Result<(), DecodeError>)
    requires
        old(frame).wf(),
        palette_at <= b@.len(),
        src <= 0x1_0000_0000_0000_0000_0000_0000_0000,
        y <= 0x1_0000,
    ensures
        match bip_block(
            b@,
            old(frame).pixels@,
            old(frame).width as int,
            paletted,
            second,
            palette_at as int,
            src as int,
            x as int,
            y as int,
            0,
        ) {
            Ok(canvas) => r is Ok && final(frame).wf() && final(frame).holds(
                old(frame).og_fmt,
                old(frame).width,
                old(frame).height,
                canvas,
            ),
            Err(e) => r matches Err(e2) && e2 == e,
        },
{
    let side: u32 = if paletted {
        30
    } else if second {
        14
    } else {
        16
    };
    let pixel: u128 = if paletted {
        1
    } else {
        4
    };
    let span: u128 = if paletted {
        30
    } else if second {
        56
    } else {
        64
    };
    let total: usize = b.len();
    let mut from: u128 = src;
    let mut k: u32 = 0;
    while k < side
        invariant
            k <= side,
            side == real_block(paletted, second),
            pixel == stored_pixel(paletted),
            total == b@.len(),
            palette_at <= total,
            y <= 0x1_0000,
            from <= src + k * 2048,
            span == side * pixel,
            src <= 0x1_0000_0000_0000_0000_0000_0000_0000,
            frame.wf(),
            frame.width == old(frame).width,
            frame.height == old(frame).height,
            frame.og_fmt == old(frame).og_fmt,
            bip_block(
                b@,
                frame.pixels@,
                frame.width as int,
                paletted,
                second,
                palette_at as int,
                from as int,
                x as int,
                y as int,
                k as int,
            ) == bip_block(
                b@,
                old(frame).pixels@,
                old(frame).width as int,
                paletted,
                second,
                palette_at as int,
                src as int,
                x as int,
                y as int,
                0,
            ),
        decreases side - k,
    {
        if from + span >= total as u128 {
            return Ok(());
        }
        let at: usize = from as usize;
        let data: &[u8] = &b[at..total];
        assert(data@ == b@.skip(from as int));
        let line: Frame = if paletted {
            let clut: &[u8] = &b[palette_at..total];
            assert(clut@ == b@.skip(palette_at as int));
            match Frame::try_new(PixelFormat::RgbaClut8, side, 1, clut, data) {
                Some(line) => line,
                None => {
                    return Err(DecodeError::PixelData);
                },
            }
        } else {
            Frame::from_rgba(side, 1, data).with_double_alpha()
        };
        assert(line.pixels@ == block_row(b@, paletted, second, palette_at as int, from as int));
        assert(line.wf()) by {
            assert(line.pixels@.len() == side);
        }
        frame.paste(x, y + k, &line);
        from = from + 512 * pixel;
        k += 1;
    }
    Ok(())
}

/// Pastes the blocks of a tile and gives the place among the stored blocks afterwards.
fn paste_blocks(
    b: &[u8],
    h: &BipHeader,
    frame: &mut Frame,
    paletted: bool,
    second: bool,
    palette_at: usize,
    tile_x: u32,
    tile_y: u32,
    across: u32,
    down: u32,
    src_x: u32,
    src_y: u128,
) -> (r: Result<(u32, u128), DecodeError>)
    requires
        old(frame).wf(),
        palette_at <= b@.len(),
        tile_x <= 0x2000,
        tile_y <= 0x2000,
        across <= 0xFF,
        down <= 0xFF,
        src_x < 32,
        src_y <= 0x1_0000 * INDEX_LIMIT,
    ensures
        match bip_blocks(
            b@,
            *h,
            BipBlocks { canvas: old(frame).pixels@, src_x: src_x as int, src_y: src_y as int },
            old(frame).width as int,
            paletted,
            second,
            palette_at as int,
            tile_x as int,
            tile_y as int,
            across as int,
            across * down,
            0,
            0,
            0,
        ) {
            Ok(done) => r matches Ok(place) && place.0 == done.src_x && place.1 == done.src_y
                && place.0 < 32 && place.1 <= src_y + 0xFE01 && final(frame).wf()
                && final(frame).holds(
                old(frame).og_fmt,
                old(frame).width,
                old(frame).height,
                done.canvas,
            ),
            Err(e) => r matches Err(e2) && e2 == e,
        },
{
    let side: u32 = if paletted {
        30
    } else if second {
        14
    } else {
        16
    };
    let stored: u128 = if paletted {
        32
    } else {
        16
    };
    let pixel: u128 = if paletted {
        1
    } else {
        4
    };
    assert(across * down <= 0xFF * 0xFF) by (nonlinear_arith)
        requires
            0 <= across <= 0xFF,
            0 <= down <= 0xFF,
    ;
    let count: u32 = across * down;
    let mut sx: u32 = src_x;
    let mut sy: u128 = src_y;
    let mut dx: u32 = 0;
    let mut dy: u32 = 0;
    let mut i: u32 = 0;
    while i < count
        invariant
            i <= count,
            count == across * down,
            count <= 0xFE01,
            side == real_block(paletted, second),
            stored == stored_block(paletted),
            pixel == stored_pixel(paletted),
            palette_at <= b@.len(),
            tile_x <= 0x2000,
            tile_y <= 0x2000,
            across <= 0xFF,
            sx < 32,
            sy <= src_y + i,
            src_y <= 0x1_0000 * INDEX_LIMIT,
            dx < across || i == count,
            dy * across + dx == i,
            down <= 0xFF,
            frame.wf(),
            frame.width == old(frame).width,
            frame.height == old(frame).height,
            frame.og_fmt == old(frame).og_fmt,
            bip_blocks(
                b@,
                *h,
                BipBlocks { canvas: frame.pixels@, src_x: sx as int, src_y: sy as int },
                frame.width as int,
                paletted,
                second,
                palette_at as int,
                tile_x as int,
                tile_y as int,
                across as int,
                count as int,
                i as int,
                dx as int,
                dy as int,
            ) == bip_blocks(
                b@,
                *h,
                BipBlocks {
                    canvas: old(frame).pixels@,
                    src_x: src_x as int,
                    src_y: src_y as int,
                },
                old(frame).width as int,
                paletted,
                second,
                palette_at as int,
                tile_x as int,
                tile_y as int,
                across as int,
                count as int,
                0,
                0,
                0,
            ),
        decreases count - i,
    {
        let start: u128 = if paletted {
            h.pixel_section as u128 + (sy * 16384 + sx as u128 * 32) + 513
        } else if second {
            h.pixel_section as u128 + (sy * 8192 + sx as u128 * 16) * 4 + 2052
        } else {
            h.pixel_section as u128 + (sy * 8192 + sx as u128 * 16) * 4
        };
        assert(start == block_start(*h, paletted, second, sx as int, sy as int));
        assert(dy < down) by (nonlinear_arith)
            requires
                dy * across + dx == i,
                i < across * down,
                0 <= dx,
                0 < across,
                0 <= dy,
        ;
        assert(dy * side <= 0xFF * 30 && dx * side <= 0xFF * 30) by (nonlinear_arith)
            requires
                0 <= dy <= 0xFF,
                0 <= dx <= 0xFF,
                0 <= side <= 30,
        ;
        paste_block(
            b,
            frame,
            paletted,
            second,
            palette_at,
            start,
            tile_x + dx * side,
            tile_y + dy * side,
        )?;
        if sx as u128 + 1 >= 512 / stored {
            sx = 0;
            sy = sy + 1;
        } else {
            sx = sx + 1;
        }
        proof {
            assert((dy + 1) * across == dy * across + across) by (nonlinear_arith);
        }
        if dx + 1 >= across {
            dx = 0;
            dy = dy + 1;
        } else {
            dx = dx + 1;
        }
        i += 1;
    }
    Ok((sx, sy))
}

/// Where a walk over the tiles of a frame stands.
pub struct BipTileState {
    /// Where the record of the next tile starts.
    pub index: u128,
    /// The frame so far, once a tile has begun it.
    pub frame: Option<Frame>,
    /// The place among the stored blocks.
    pub src_x: u32,
    pub src_y: u128,
    /// Where the palette of the next frame starts.
    pub next_palette: u128,
}

/// The view of a frame that may not have been begun.
pub open spec fn begun(frame: Option<Frame>) -> Option<FrameView> {
    match frame {
        Some(frame) => Some(frame@),
        None => None,
    }
}

impl View for BipTileState {
    type V = BipTiles;

    open spec fn view(&self) -> BipTiles {
        BipTiles {
            index: self.index as int,
            frame: begun(self.frame),
            src_x: self.src_x as int,
            src_y: self.src_y as int,
            next_palette: self.next_palette as int,
        }
    }
}

impl BipTileState {
    /// Whether the numbers of the walk are within what the walk can reach, and the
    /// frame, if begun, has a pixel for each position.
    pub open spec fn wf(self) -> bool {
        &&& self.index <= INDEX_LIMIT
        &&& self.src_x < 32
        &&& self.src_y <= 0x1_0000 * self.index
        &&& self.next_palette <= INDEX_LIMIT + 1024
        &&& self.frame matches Some(frame) ==> frame.wf()
    }
}

/// Reads a tile of blocks.
fn block_tile(
    b: &[u8],
    h: &BipHeader,
    second: bool,
    palette_at: u128,
    paletted: bool,
    width: u16,
    height: u16,
    t: BipTileState,
) -> (r: Result<BipTileState, DecodeError>)
    requires
        t.wf(),
        t.index + 2 <= b@.len(),
        palette_at <= INDEX_LIMIT + 1024,
    ensures
        match bip_block_tile(b@, *h, second, palette_at as int, paletted, width, height, t@) {
            Ok(next) => r matches Ok(state) && state@ == next && state.wf() && state.index
                == t.index + 8,
            Err(e) => r matches Err(e2) && e2 == e,
        },
{
    reveal(bip_block_tile);
    let side: u32 = if paletted {
        30
    } else if second {
        14
    } else {
        16
    };
    let total: usize = b.len();
    if total < 8 || t.index > (total - 8) as u128 {
        return Err(DecodeError::ReadField);
    }
    let at: usize = t.index as usize;
    let tile_x: u32 = b[at + 4] as u32 * side;
    let tile_y: u32 = b[at + 5] as u32 * side;
    let across: u32 = b[at + 6] as u32;
    let down: u32 = b[at + 7] as u32;
    if tile_x + across * side >= width as u32 + side || tile_y + down * side >= height as u32
        + side {
        return Err(DecodeError::BipTileOverflow);
    }
    if palette_at > total as u128 {
        return Err(DecodeError::BipPalette);
    }
    let mut frame: Frame = match t.frame {
        Some(frame) => {
            let n: usize = frame.pixels.len();
            frame
        },
        None => {
            assert(width * height <= 0xFFFF * 0xFFFF) by (nonlinear_arith)
                requires
                    0 <= width <= 0xFFFF,
                    0 <= height <= 0xFFFF,
            ;
            if width as u64 * height as u64 > usize::MAX as u64 {
                return Err(DecodeError::ImageSize);
            }
            Frame::empty(
                width as u32,
                height as u32,
                if paletted {
                    PixelFormat::RgbaClut8
                } else {
                    PixelFormat::Rgba
                },
            )
        },
    };
    let place: (u32, u128) = paste_blocks(
        b,
        h,
        &mut frame,
        paletted,
        second,
        palette_at as usize,
        tile_x,
        tile_y,
        across,
        down,
        t.src_x,
        t.src_y,
    )?;
    Ok(
        BipTileState {
            index: t.index + 8,
            frame: Some(frame),
            src_x: place.0,
            src_y: place.1,
            next_palette: if paletted {
                palette_at + 1024
            } else {
                t.next_palette
            },
        },
    )
}

/// Pastes the picture of a tile, shifted as its record says, onto the frame, which is
/// begun where no tile has begun it.
pub fn picture_frame(
    frame: Option<Frame>,
    full_width: u16,
    full_height: u16,
    decoded: Result<PngPicture, PngStage>,
    x: u64,
    y: u64,
) -> (r: Result<Frame, DecodeError>)
    requires
        frame matches Some(f) ==> f.wf(),
    ensures
        match bip_picture_frame(
            begun(frame),
            full_width,
            full_height,
            png_outcome(decoded),
            x as int,
            y as int,
        ) {
            Ok(v) => r matches Ok(f) && f@ == v && f.wf(),
            Err(e) => r matches Err(e2) && e2 == e,
        },
{
    reveal(bip_picture_frame);
    let picture: PngPicture = match decoded {
        Err(PngStage::Info) => {
            return Err(DecodeError::BipPngInfo);
        },
        Err(PngStage::Frame) => {
            return Err(DecodeError::BipPngFrame);
        },
        Ok(picture) => picture,
    };
    let total: usize = picture.pixels.len();
    let area: u64 = crate::image::area(picture.width, picture.height);
    assert(picture.line_size * picture.height <= 0xFFFF_FFFF_FFFF_FFFF * 0xFFFF_FFFF)
        by (nonlinear_arith)
        requires
            0 <= picture.line_size <= 0xFFFF_FFFF_FFFF_FFFF,
            0 <= picture.height <= 0xFFFF_FFFF,
    ;
    if picture.line_size as u128 * picture.height as u128 != area as u128 * 4 || total % 4 != 0
        || area as u128 * 4 > total as u128 {
        return Err(DecodeError::PixelData);
    }
    let mut base: Frame = match frame {
        Some(frame) => frame,
        None => {
            let label: PixelFormat = if picture.color_type == 3 && picture.bit_depth == 4 {
                PixelFormat::BgraClut4
            } else if picture.color_type == 3 && picture.bit_depth == 8 {
                PixelFormat::BgraClut8
            } else if picture.color_type == 2 {
                PixelFormat::Bgr
            } else if picture.color_type == 6 {
                PixelFormat::Bgra
            } else {
                return Err(DecodeError::PngColorType);
            };
            assert(full_width * full_height <= 0xFFFF * 0xFFFF) by (nonlinear_arith)
                requires
                    0 <= full_width <= 0xFFFF,
                    0 <= full_height <= 0xFFFF,
            ;
            if full_width as u64 * full_height as u64 > usize::MAX as u64 {
                return Err(DecodeError::ImageSize);
            }
            Frame::empty(full_width as u32, full_height as u32, label)
        },
    };
    if x > u32::MAX as u64 || y > u32::MAX as u64 {
        return Ok(base);
    }
    let tile: Frame = Frame::from_bgra(
        picture.width,
        picture.height,
        picture.pixels.as_slice(),
    ).with_double_alpha();
    base.paste(x as u32, y as u32, &tile);
    Ok(base)
}

/// Reads a tile that holds a PNG picture.
fn picture_tile(b: &[u8], h: &BipHeader, t: BipTileState) -> (r: Result<BipTileState, DecodeError>)
    requires
        t.wf(),
        t.index + 2 <= b@.len(),
    ensures
        match bip_picture_tile(b@, *h, t@) {
            Ok(next) => r matches Ok(state) && state@ == next && state.wf() && state.index
                == t.index + 28,
            Err(e) => r matches Err(e2) && e2 == e,
        },
{
    reveal(bip_picture_tile);
    let total: usize = b.len();
    if total < 28 || t.index > (total - 28) as u128 {
        return Err(DecodeError::ReadField);
    }
    let at: usize = t.index as usize;
    let full_width: u16 = b.read_u16(at + 20)?;
    let full_height: u16 = b.read_u16(at + 22)?;
    let tile_x: u16 = b.read_u16(at + 8)?;
    let tile_y: u16 = b.read_u16(at + 10)?;
    let data: u128 = h.pixel_section as u128 + b.read_u32(at + 24)? as u128;
    let len: u32 = u32_at(b, data + 32)?;
    let end: u128 = data + 8 + len as u128;
    let x_off: u32 = u32_at(b, data + 116)?;
    let y_off: u32 = u32_at(b, data + 120)?;
    if data + 132 > end || end > total as u128 {
        return Err(DecodeError::BipPngRange);
    }
    let decoded = png_decode(&b[(data + 132) as usize..end as usize]);
    let frame: Frame = picture_frame(
        t.frame,
        full_width,
        full_height,
        decoded,
        tile_x as u64 + x_off as u64,
        tile_y as u64 + y_off as u64,
    )?;
    Ok(
        BipTileState {
            index: t.index + 28,
            frame: Some(frame),
            src_x: t.src_x,
            src_y: t.src_y,
            next_palette: t.next_palette,
        },
    )
}

/// Reads up to `count` tiles of a frame.
#[verifier::loop_isolation(false)]
fn read_tiles(
    b: &[u8],
    h: &BipHeader,
    second: bool,
    palette_at: u128,
    paletted: bool,
    width: u16,
    height: u16,
    start: BipTileState,
    count: u16,
) -> (r: Result<BipTileState, DecodeError>)
    requires
        start.wf(),
        start.index <= b@.len() + 12,
        palette_at <= INDEX_LIMIT + 1024,
    ensures
        match bip_tiles(
            b@,
            *h,
            second,
            palette_at as int,
            paletted,
            width,
            height,
            start@,
            count as int,
        ) {
            Ok(done) => r matches Ok(state) && state@ == done && state.wf() && state.index
                >= start.index && state.index <= b@.len() + 28,
            Err(e) => r matches Err(e2) && e2 == e,
        },
{
    let ghost first = start@;
    let mut t: BipTileState = start;
    let mut i: u16 = 0;
    while i < count
        invariant
            i <= count,
            t.wf(),
            t.index >= first.index,
            t.index <= b@.len() + 28,
            palette_at <= INDEX_LIMIT + 1024,
            bip_tiles(
                b@,
                *h,
                second,
                palette_at as int,
                paletted,
                width,
                height,
                t@,
                count - i,
            ) == bip_tiles(
                b@,
                *h,
                second,
                palette_at as int,
                paletted,
                width,
                height,
                first,
                count as int,
            ),
        decreases count - i,
    {
        let size: u16 = u16_at(b, t.index)?;
        if size == 0 {
            return Ok(t);
        } else if size == 2 {
            t = block_tile(b, h, second, palette_at, paletted, width, height, t)?;
        } else if size == 7 {
            t = picture_tile(b, h, t)?;
        } else {
            return Err(DecodeError::BipTileSize { size });
        }
        i += 1;
    }
    Ok(t)
}

/// Reads the frames of a file as the first flavor, or as the second.
#[verifier::loop_isolation(false)]
pub fn read_pass(b: &[u8], second: bool) -> (r: Result<Image, DecodeError>)
    ensures
        image_outcome(r) == bip_pass(b@, second),
        r matches Ok(image) ==> image.wf(),
{
    let h: BipHeader = read_header(b)?;
    let mut frames: Vec<Frame> = Vec::new();
    assert(frame_views(frames@) =~= Seq::empty());
    let mut index: u128 = h.index_section as u128;
    let mut palette: u128 = h.palette_section as u128;
    let mut src_x: u32 = 0;
    let mut src_y: u128 = 0;
    loop
        invariant
            bip_header(b@) == Ok::<BipHeader, DecodeError>(h),
            index <= INDEX_LIMIT,
            palette <= INDEX_LIMIT + 1024,
            src_x < 32,
            src_y <= 0x1_0000 * index,
            crate::image::all_wf(frames@),
            bip_frames(
                b@,
                h,
                second,
                BipFrames {
                    index: index as int,
                    palette: palette as int,
                    src_x: src_x as int,
                    src_y: src_y as int,
                    frames: frame_views(frames@),
                },
            ) == bip_frames(
                b@,
                h,
                second,
                BipFrames {
                    index: h.index_section as int,
                    palette: h.palette_section as int,
                    src_x: 0,
                    src_y: 0,
                    frames: Seq::empty(),
                },
            ),
        decreases bip_left(b@, index as int),
    {
        let count: u16 = u16_at(b, index)?;
        if count == 0 {
            return if frames.len() == 0 {
                Err(DecodeError::BipNoFrames)
            } else {
                Ok(Image { frames })
            };
        }
        let total: usize = b.len();
        if total < 12 || index > (total - 12) as u128 {
            return Err(DecodeError::ReadField);
        }
        let at: usize = index as usize;
        let paletted: bool = b.read_u16(at + 2)? != 0;
        let width: u16 = b.read_u16(at + 8)?;
        let height: u16 = b.read_u16(at + 10)?;
        let start = BipTileState { index: index + 12, frame: None, src_x, src_y, next_palette: 0 };
        let done: BipTileState = read_tiles(
            b,
            &h,
            second,
            palette,
            paletted,
            width,
            height,
            start,
            count,
        )?;
        index = done.index;
        palette = done.next_palette;
        src_x = done.src_x;
        src_y = done.src_y;
        match done.frame {
            Some(frame) => {
                let ghost before = frames@;
                frames.push(frame);
                proof {
                    assert(frame_views(frames@) =~= frame_views(before).push(
                        frames@[before.len() as int]@,
                    ));
                }
            },
            None => {},
        }
    }
}

/// Decodes a file.
pub fn decode(b: &[u8]) -> (r: Result<Image, DecodeError>)
    ensures
        image_outcome(r) == bip_decoded(b@),
        r matches Ok(image) ==> image.wf(),
{
    match read_pass(b, false) {
        Err(DecodeError::BipTileOverflow) => read_pass(b, true),
        first => first,
    }
}

} // verus!
