use crate::byte_slice::{fits, le_u16, le_u32, ByteSlice};
use crate::error::DecodeError;
use crate::image::{
    clear_pixel,
    convertible,
    decoded_pixels,
    doubled_alpha,
    frame_views,
    image_outcome,
    pasted_pixels,
    fix_clut,
    shuffled_palette,
    Frame,
    FrameView,
    Image,
    ImageView,
    Pixel,
    PixelFormat,
};
use vstd::prelude::*;

verus! {

/// What the header of a file says.
#[derive(Clone, Copy, Debug, PartialEq, Eq)]
pub struct OgdtHeader {
    /// The width of a tile.
    pub tile_width: u16,
    /// The height of a tile.
    pub tile_height: u16,
    /// The number of tiles in a row of the image.
    pub columns: u8,
    /// The number of rows of tiles.
    pub rows: u8,
    /// The layout of the pixels.
    pub fmt: PixelFormat,
    /// Where the palette starts, for a layout that has one; else the length of the file.
    pub clut_start: usize,
}

impl OgdtHeader {
    /// The number of tiles.
    pub open spec fn count(self) -> int {
        self.columns * self.rows
    }

    /// The number of pixels of a tile.
    pub open spec fn tile_area(self) -> int {
        self.tile_width * self.tile_height
    }

    /// The number of bytes of a tile.
    pub open spec fn tile_size(self) -> int {
        if self.fmt == PixelFormat::Rgba {
            self.tile_area() * 4
        } else if self.fmt == PixelFormat::Rgb {
            self.tile_area() * 3
        } else if self.fmt == PixelFormat::Rgba16 {
            self.tile_area() * 2
        } else if self.fmt == PixelFormat::RgbaClut8 {
            self.tile_area()
        } else {
            self.tile_area() / 2
        }
    }

    /// The width of the image.
    pub open spec fn width(self) -> int {
        self.tile_width * self.columns
    }

    /// The height of the image.
    pub open spec fn height(self) -> int {
        self.tile_height * self.rows
    }

    /// Whether alpha is stored on the scale to 128.
    pub open spec fn doubles_alpha(self) -> bool {
        self.fmt == PixelFormat::Rgba || self.fmt == PixelFormat::RgbaClut8 || self.fmt
            == PixelFormat::RgbaClut4
    }

    /// The palette: what follows the pixels, shuffled for eight-bit indices.
    pub open spec fn clut(self, buf: Seq<u8>) -> Seq<u8> {
        if self.fmt == PixelFormat::RgbaClut8 {
            shuffled_palette(buf.skip(self.clut_start as int))
        } else if self.fmt == PixelFormat::RgbaClut4 {
            buf.skip(self.clut_start as int)
        } else {
            Seq::empty()
        }
    }
}

/// The header of a file. The tile size is at offset 8, the numbers of columns and rows
/// at 12 and 14, the format code at 4: 0 for `Rgba`; 1 for `Rgb`, or for `Rgba16`
/// where the file is too short for 24 bits a pixel; 0x13 for `RgbaClut8` and 0x14 for
/// `RgbaClut4`, each with its palette after the pixels.
pub open spec fn ogdt_header(buf: Seq<u8>) -> Result<OgdtHeader, DecodeError> {
    let tile_width = le_u16(buf, 8);
    let tile_height = le_u16(buf, 10);
    let columns = buf[12];
    let rows = buf[14];
    let area = columns * rows * tile_width * tile_height;
    let code = le_u32(buf, 4);
    let plain = OgdtHeader {
        tile_width,
        tile_height,
        columns,
        rows,
        fmt: PixelFormat::Rgba,
        clut_start: buf.len() as usize,
    };
    if !fits(buf, 8, 2) {
        Err(DecodeError::OgdtWidth)
    } else if !fits(buf, 10, 2) {
        Err(DecodeError::OgdtHeight)
    } else if !fits(buf, 12, 1) {
        Err(DecodeError::OgdtColumns)
    } else if !fits(buf, 14, 1) {
        Err(DecodeError::OgdtRows)
    } else if code == 0 {
        Ok(plain)
    } else if code == 1 {
        if buf.len() < 32 + area * 3 {
            Ok(OgdtHeader { fmt: PixelFormat::Rgba16, ..plain })
        } else {
            Ok(OgdtHeader { fmt: PixelFormat::Rgb, ..plain })
        }
    } else if code == 0x13 {
        if 48 + area > buf.len() || (buf.len() - (48 + area)) % 4 != 0 {
            Err(DecodeError::OgdtClut8)
        } else {
            Ok(OgdtHeader { fmt: PixelFormat::RgbaClut8, clut_start: (48 + area) as usize, ..plain })
        }
    } else if code == 0x14 {
        if 48 + area / 2 > buf.len() {
            Err(DecodeError::OgdtClut4)
        } else {
            Ok(
                OgdtHeader {
                    fmt: PixelFormat::RgbaClut4,
                    clut_start: (48 + area / 2) as usize,
                    ..plain
                },
            )
        }
    } else {
        Err(DecodeError::OgdtFormat { id: code })
    }
}

/// The pixels of tile `k`, whose bytes start at `32 + k * tile_size`.
pub open spec fn ogdt_tile(h: OgdtHeader, buf: Seq<u8>, k: int) -> Result<Seq<Pixel>, DecodeError> {
    let bytes = buf.subrange(32 + k * h.tile_size(), 32 + (k + 1) * h.tile_size());
    let pixels = decoded_pixels(
        h.fmt,
        h.tile_width as int,
        h.tile_height as int,
        h.clut(buf),
        bytes,
    );
    if !convertible(h.fmt, h.tile_width as int, h.tile_height as int, h.clut(buf), bytes)
        || pixels.len() != h.tile_area() {
        Err(DecodeError::PixelData)
    } else if h.doubles_alpha() {
        Ok(doubled_alpha(pixels))
    } else {
        Ok(pixels)
    }
}

/// The image once the tiles from `k` on have been pasted onto `canvas`, tile `k` at
/// column `x`, row `y`. The tiles fill the image row by row.
pub open spec fn ogdt_canvas(
    h: OgdtHeader,
    buf: Seq<u8>,
    k: int,
    x: int,
    y: int,
    canvas: Seq<Pixel>,
) -> Result<Seq<Pixel>, DecodeError>
    decreases h.count() - k,
{
    if k >= h.count() {
        Ok(canvas)
    } else {
        match ogdt_tile(h, buf, k) {
            Err(e) => Err(e),
            Ok(tile) => {
                let pasted = pasted_pixels(
                    canvas,
                    h.width(),
                    x,
                    y,
                    tile,
                    h.tile_width as int,
                    h.tile_height as int,
                );
                if x + h.tile_width >= h.width() {
                    ogdt_canvas(h, buf, k + 1, 0, y + h.tile_height, pasted)
                } else {
                    ogdt_canvas(h, buf, k + 1, x + h.tile_width, y, pasted)
                }
            },
        }
    }
}

/// What a file decodes to: one frame, made of its tiles. All tiles must lie within
/// the file.
pub open spec fn ogdt_decoded(buf: Seq<u8>) -> Result<ImageView, DecodeError> {
    match ogdt_header(buf) {
        Err(e) => Err(e),
        Ok(h) => if h.count() > 0 && 32 + h.count() * h.tile_size() > buf.len() {
            Err(DecodeError::OgdtPixels)
        } else if h.width() * h.height() > usize::MAX {
            Err(DecodeError::ImageSize)
        } else {
            match ogdt_canvas(
                h,
                buf,
                0,
                0,
                0,
                Seq::new((h.width() * h.height()) as nat, |i: int| clear_pixel()),
            ) {
                Err(e) => Err(e),
                Ok(pixels) => Ok(
                    ImageView {
                        frames: seq![
                            FrameView {
                                width: h.width() as u32,
                                height: h.height() as u32,
                                og_fmt: h.fmt,
                                pixels,
                            },
                        ],
                    },
                ),
            }
        },
    }
}

/// Whether bytes are of this format: they start with `ogdt`.
pub open spec fn ogdt_magic() -> Seq<u8> {
    seq![0x6Fu8, 0x67u8, 0x64u8, 0x74u8]
}

/// Products of the numbers of a header stay small.
proof fn lemma_header_bounds(tile_width: int, tile_height: int, columns: int, rows: int)
    requires
        0 <= tile_width < 0x1_0000,
        0 <= tile_height < 0x1_0000,
        0 <= columns < 0x100,
        0 <= rows < 0x100,
    ensures
        0 <= columns * rows <= 0xFE01,
        0 <= tile_width * tile_height <= 0xFFFE_0001,
        0 <= columns * rows * tile_width * tile_height <= 0xFE01 * 0xFFFE_0001,
        0 <= tile_width * columns <= 0xFF_FF00,
        0 <= tile_height * rows <= 0xFF_FF00,
        tile_width * columns * (tile_height * rows) == columns * rows * tile_width * tile_height,
        columns * rows * tile_width * tile_height == (columns * rows) * (tile_width * tile_height),
{
    assert(0 <= columns * rows <= 0xFE01) by (nonlinear_arith)
        requires
            0 <= columns <= 0xFF,
            0 <= rows <= 0xFF,
    ;
    assert(0 <= tile_width * tile_height <= 0xFFFE_0001) by (nonlinear_arith)
        requires
            0 <= tile_width <= 0xFFFF,
            0 <= tile_height <= 0xFFFF,
    ;
    assert(0 <= tile_width * columns <= 0xFF_FF00) by (nonlinear_arith)
        requires
            0 <= tile_width <= 0xFFFF,
            0 <= columns <= 0xFF,
    ;
    assert(0 <= tile_height * rows <= 0xFF_FF00) by (nonlinear_arith)
        requires
            0 <= tile_height <= 0xFFFF,
            0 <= rows <= 0xFF,
    ;
    let count = columns * rows;
    let area = tile_width * tile_height;
    assert(0 <= count * area <= 0xFE01 * 0xFFFE_0001) by (nonlinear_arith)
        requires
            0 <= count <= 0xFE01,
            0 <= area <= 0xFFFE_0001,
    ;
    assert(columns * rows * tile_width * tile_height == count * area) by (nonlinear_arith)
        requires
            count == columns * rows,
            area == tile_width * tile_height,
    ;
    assert(tile_width * columns * (tile_height * rows) == count * area) by (nonlinear_arith)
        requires
            count == columns * rows,
            area == tile_width * tile_height,
    ;
}

/// Reads the header of a file.
pub fn read_header(buf: &[u8]) -> (r: Result<OgdtHeader, DecodeError>)
    ensures
        r == ogdt_header(buf@),
{
    let tile_width: u16 = match buf.get_u16_at(8) {
        Some(v) => v,
        None => {
            return Err(DecodeError::OgdtWidth);
        },
    };
    let tile_height: u16 = match buf.get_u16_at(10) {
        Some(v) => v,
        None => {
            return Err(DecodeError::OgdtHeight);
        },
    };
    let columns: u8 = match buf.get_u8_at(12) {
        Some(v) => v,
        None => {
            return Err(DecodeError::OgdtColumns);
        },
    };
    let rows: u8 = match buf.get_u8_at(14) {
        Some(v) => v,
        None => {
            return Err(DecodeError::OgdtRows);
        },
    };
    proof {
        lemma_header_bounds(tile_width as int, tile_height as int, columns as int, rows as int);
    }
    let area: u64 = (columns as u64 * rows as u64) * (tile_width as u64 * tile_height as u64);
    let code: u32 = match buf.get_u32_at(4) {
        Some(v) => v,
        None => {
            return Err(DecodeError::OgdtWidth);
        },
    };
    let len: u64 = buf.len() as u64;
    let plain = OgdtHeader {
        tile_width,
        tile_height,
        columns,
        rows,
        fmt: PixelFormat::Rgba,
        clut_start: buf.len(),
    };
    if code == 0 {
        Ok(plain)
    } else if code == 1 {
        if len < 32 + area * 3 {
            Ok(OgdtHeader { fmt: PixelFormat::Rgba16, ..plain })
        } else {
            Ok(OgdtHeader { fmt: PixelFormat::Rgb, ..plain })
        }
    } else if code == 0x13 {
        if 48 + area > len || (len - (48 + area)) % 4 != 0 {
            Err(DecodeError::OgdtClut8)
        } else {
            Ok(OgdtHeader { fmt: PixelFormat::RgbaClut8, clut_start: (48 + area) as usize, ..plain })
        }
    } else if code == 0x14 {
        if 48 + area / 2 > len {
            Err(DecodeError::OgdtClut4)
        } else {
            Ok(
                OgdtHeader {
                    fmt: PixelFormat::RgbaClut4,
                    clut_start: (48 + area / 2) as usize,
                    ..plain
                },
            )
        }
    } else {
        Err(DecodeError::OgdtFormat { id: code })
    }
}

/// Converts tile `k`.
fn read_tile(h: &OgdtHeader, buf: &[u8], clut: &[u8], k: usize, tile_size: usize) -> (r: Result<
    Frame,
    DecodeError,
>)
    requires
        ogdt_header(buf@) == Ok::<OgdtHeader, DecodeError>(*h),
        clut@ == h.clut(buf@),
        tile_size == h.tile_size(),
        k < h.count(),
        32 + h.count() * h.tile_size() <= buf@.len(),
    ensures
        match ogdt_tile(*h, buf@, k as int) {
            Ok(pixels) => r matches Ok(f) && f.holds(
                h.fmt,
                h.tile_width as u32,
                h.tile_height as u32,
                pixels,
            ) && f.wf(),
            Err(e) => r matches Err(e2) && e2 == e,
        },
{
    proof {
        let count = h.count();
        let size = h.tile_size();
        assert((k + 1) * size <= count * size) by (nonlinear_arith)
            requires
                k + 1 <= count,
                0 <= size,
        ;
        assert(k * size + size == (k + 1) * size) by (nonlinear_arith);
        assert(0 <= k * size) by (nonlinear_arith)
            requires
                0 <= k,
                0 <= size,
        ;
    }
    let total: usize = buf.len();
    let start: usize = 32 + k * tile_size;
    let bytes: &[u8] = &buf[start..start + tile_size];
    let tile: Frame = match Frame::try_new(
        h.fmt,
        h.tile_width as u32,
        h.tile_height as u32,
        clut,
        bytes,
    ) {
        Some(tile) => tile,
        None => {
            return Err(DecodeError::PixelData);
        },
    };
    proof {
        lemma_header_bounds(h.tile_width as int, h.tile_height as int, 0, 0);
    }
    if tile.pixels.len() as u64 != h.tile_width as u64 * h.tile_height as u64 {
        return Err(DecodeError::PixelData);
    }
    match h.fmt {
        PixelFormat::Rgba | PixelFormat::RgbaClut8 | PixelFormat::RgbaClut4 => Ok(
            tile.with_double_alpha(),
        ),
        _ => Ok(tile),
    }
}

/// Decodes a file.
#[verifier::loop_isolation(false)]
pub fn decode(buf: &[u8]) -> (r: Result<Image, DecodeError>)
    ensures
        image_outcome(r) == ogdt_decoded(buf@),
        r matches Ok(image) ==> image.wf(),
{
    let h: OgdtHeader = read_header(buf)?;
    proof {
        lemma_header_bounds(
            h.tile_width as int,
            h.tile_height as int,
            h.columns as int,
            h.rows as int,
        );
    }
    let count: usize = h.columns as usize * h.rows as usize;
    let area: u64 = h.tile_width as u64 * h.tile_height as u64;
    let tile_size: u64 = match h.fmt {
        PixelFormat::Rgba => area * 4,
        PixelFormat::Rgb => area * 3,
        PixelFormat::Rgba16 => area * 2,
        PixelFormat::RgbaClut8 => area,
        _ => area / 2,
    };
    assert(count as u64 * tile_size <= 0xFE01 * (4 * 0xFFFE_0001)) by (nonlinear_arith)
        requires
            0 <= count <= 0xFE01,
            0 <= tile_size <= 4 * 0xFFFE_0001,
    ;
    if count > 0 && 32 + count as u64 * tile_size > buf.len() as u64 {
        return Err(DecodeError::OgdtPixels);
    }
    let width: u32 = h.tile_width as u32 * h.columns as u32;
    let height: u32 = h.tile_height as u32 * h.rows as u32;
    assert(width * height <= 0xFF_FF00 * 0xFF_FF00) by (nonlinear_arith)
        requires
            0 <= width <= 0xFF_FF00,
            0 <= height <= 0xFF_FF00,
    ;
    if width as u64 * height as u64 > usize::MAX as u64 {
        return Err(DecodeError::ImageSize);
    }
    let clut: Vec<u8> = match h.fmt {
        PixelFormat::RgbaClut8 => fix_clut(&buf[h.clut_start..buf.len()]),
        PixelFormat::RgbaClut4 => {
            let mut v: Vec<u8> = Vec::new();
            v.extend_from_slice(&buf[h.clut_start..buf.len()]);
            v
        },
        _ => Vec::new(),
    };
    assert(clut@ =~= h.clut(buf@));
    let mut canvas: Frame = Frame::empty(width, height, h.fmt);
    if count == 0 {
        let mut frames: Vec<Frame> = Vec::new();
        frames.push(canvas);
        assert(frame_views(frames@) =~= seq![frames@[0]@]);
        return Ok(Image { frames });
    }
    assert(tile_size <= count * tile_size) by (nonlinear_arith)
        requires
            1 <= count,
            0 <= tile_size,
    ;
    let tile_bytes: usize = tile_size as usize;
    let mut x: u32 = 0;
    let mut y: u32 = 0;
    let mut k: usize = 0;
    while k < count
        invariant
            k <= count,
            canvas.wf(),
            canvas.width == width,
            canvas.height == height,
            canvas.og_fmt == h.fmt,
            x < width || x == 0,
            y <= k * h.tile_height,
            ogdt_canvas(h, buf@, k as int, x as int, y as int, canvas.pixels@) == ogdt_canvas(
                h,
                buf@,
                0,
                0,
                0,
                Seq::new((h.width() * h.height()) as nat, |i: int| clear_pixel()),
            ),
        decreases count - k,
    {
        let tile: Frame = read_tile(&h, buf, clut.as_slice(), k, tile_bytes)?;
        proof {
            let th = h.tile_height as int;
            assert(k * th + th <= 0xFE01 * 0xFFFF) by (nonlinear_arith)
                requires
                    0 <= k < 0xFE01,
                    0 <= th <= 0xFFFF,
            ;
            assert((k + 1) * th == k * th + th) by (nonlinear_arith);
        }
        canvas.paste(x, y, &tile);
        if x + h.tile_width as u32 >= width {
            x = 0;
            y = y + h.tile_height as u32;
        } else {
            x = x + h.tile_width as u32;
        }
        k += 1;
    }
    let mut frames: Vec<Frame> = Vec::new();
    frames.push(canvas);
    assert(frame_views(frames@) =~= seq![frames@[0]@]);
    Ok(Image { frames })
}

} // verus!
