use crate::byte_slice::{fits, le_u16, le_u32, ByteSlice};
use crate::error::DecodeError;
use crate::image::{
    convertible,
    frame_views,
    image_outcome,
    lemma_cell,
    lemma_cell_bound,
    pixel_at,
    pixel_of_bytes,
    Frame,
    FrameView,
    Image,
    ImageView,
    Pixel,
    PixelFormat,
};
use vstd::prelude::*;

verus! {

/// The four bytes `PRT` and zero.
pub open spec fn prt_magic() -> Seq<u8> {
    seq![0x50u8, 0x52u8, 0x54u8, 0u8]
}

/// What the header of a file says.
#[derive(Clone, Copy, Debug, PartialEq, Eq)]
pub struct PrtHeader {
    /// The number of bits of a pixel.
    pub bpp: u16,
    /// Where the palette starts.
    pub palette_pos: u16,
    /// Where the rows of pixels start.
    pub pixel_pos: u16,
    /// Whether a plane of alpha values follows the rows.
    pub has_alpha: bool,
    /// The width of the image.
    pub width: u32,
    /// The height of the image.
    pub height: u32,
}

impl PrtHeader {
    /// The number of bytes from one row to the next: a row, padded to a multiple of four.
    pub open spec fn stride(self) -> int {
        ((self.width * (self.bpp / 8) + 3) / 4) * 4
    }

    /// Where the row of the file starts that holds row `r` of the image. The rows are
    /// stored from the bottom up.
    pub open spec fn row_pos(self, r: int) -> int {
        self.pixel_pos + self.stride() * (self.height - 1 - r)
    }

    /// Where the plane of alpha values starts.
    pub open spec fn alpha_pos(self) -> int {
        self.pixel_pos + self.stride() * self.height
    }
}

/// The file proper: the bytes themselves where they start with the signature, else
/// what follows their first 16 bytes, if anything.
pub open spec fn prt_body(bytes: Seq<u8>) -> Seq<u8> {
    if fits(bytes, 0, 4) && bytes.subrange(0, 4) == prt_magic() {
        bytes
    } else if bytes.len() >= 16 {
        bytes.skip(16)
    } else {
        Seq::empty()
    }
}

/// The header. The version at offset 4 is 101 or 102; the size of the image is at
/// offset 12 in two bytes each for 101, at offset 28 in four bytes each for 102.
pub open spec fn prt_header(buf: Seq<u8>) -> Result<PrtHeader, DecodeError> {
    let version = le_u16(buf, 4);
    if !fits(buf, 4, 2) {
        Err(DecodeError::ReadField)
    } else if version != 101 && version != 102 {
        Err(DecodeError::PrtVersion { version })
    } else if !fits(buf, 16, 4) || (version == 102 && !fits(buf, 32, 4)) {
        Err(DecodeError::ReadField)
    } else {
        Ok(
            PrtHeader {
                bpp: le_u16(buf, 6),
                palette_pos: le_u16(buf, 8),
                pixel_pos: le_u16(buf, 10),
                has_alpha: le_u32(buf, 16) != 0,
                width: if version == 102 {
                    le_u32(buf, 28)
                } else {
                    le_u16(buf, 12) as u32
                },
                height: if version == 102 {
                    le_u32(buf, 32)
                } else {
                    le_u16(buf, 14) as u32
                },
            },
        )
    }
}

/// Whether row `r` of a palettized image can be read: its bytes lie within the file,
/// and so does every palette entry that it names.
pub open spec fn prt_row_ok(h: PrtHeader, buf: Seq<u8>, r: int) -> bool {
    h.palette_pos <= buf.len() && h.row_pos(r) <= buf.len() && convertible(
        PixelFormat::BgrxClut8,
        h.width as int,
        1,
        buf.skip(h.palette_pos as int),
        buf.skip(h.row_pos(r)),
    )
}

/// Pixel number `i` of a palettized image: an index into a palette of `Bgrx` entries.
pub open spec fn prt_indexed_pixel(h: PrtHeader, buf: Seq<u8>, i: int) -> Pixel {
    pixel_at(
        PixelFormat::BgrxClut8,
        buf.skip(h.palette_pos as int),
        buf.skip(h.row_pos(i / (h.width as int))),
        i % (h.width as int),
    )
}

/// Where the three color bytes of pixel number `i` of a direct image lie.
pub open spec fn prt_direct_pos(h: PrtHeader, i: int) -> int {
    h.row_pos(i / (h.width as int)) + 3 * (i % (h.width as int))
}

/// Whether pixel number `i` of a direct image can be read.
pub open spec fn prt_direct_ok(h: PrtHeader, buf: Seq<u8>, i: int) -> bool {
    fits(buf, prt_direct_pos(h, i), 3) && (h.has_alpha ==> h.alpha_pos() + i < buf.len())
}

/// Pixel number `i` of a direct image: blue, green, red, with its alpha value from
/// the plane after the rows where there is one.
pub open spec fn prt_direct_pixel(h: PrtHeader, buf: Seq<u8>, i: int) -> Pixel {
    let p = pixel_of_bytes(buf, prt_direct_pos(h, i), true, false);
    Pixel {
        r: p.r,
        g: p.g,
        b: p.b,
        a: if h.has_alpha {
            buf[h.alpha_pos() + i]
        } else {
            255
        },
    }
}

/// The one frame of an image, given its header.
pub open spec fn prt_frame(h: PrtHeader, buf: Seq<u8>) -> Result<FrameView, DecodeError> {
    let count = h.width * h.height;
    if h.bpp == 8 {
        if forall|r: int| 0 <= r < h.height ==> prt_row_ok(h, buf, r) {
            Ok(
                FrameView {
                    width: h.width,
                    height: h.height,
                    og_fmt: PixelFormat::BgrxClut8,
                    pixels: Seq::new(count as nat, |i: int| prt_indexed_pixel(h, buf, i)),
                },
            )
        } else {
            Err(DecodeError::PixelData)
        }
    } else if h.bpp == 24 {
        if forall|i: int| 0 <= i < count ==> prt_direct_ok(h, buf, i) {
            Ok(
                FrameView {
                    width: h.width,
                    height: h.height,
                    og_fmt: PixelFormat::Bgra,
                    pixels: Seq::new(count as nat, |i: int| prt_direct_pixel(h, buf, i)),
                },
            )
        } else {
            Err(DecodeError::PixelData)
        }
    } else {
        Err(DecodeError::PrtBpp { bpp: h.bpp })
    }
}

/// What bytes decode to: an image of one frame.
pub open spec fn prt_decoded(bytes: Seq<u8>) -> Result<ImageView, DecodeError> {
    match prt_header(prt_body(bytes)) {
        Err(e) => Err(e),
        Ok(h) => match prt_frame(h, prt_body(bytes)) {
            Err(e) => Err(e),
            Ok(frame) => Ok(ImageView { frames: seq![frame] }),
        },
    }
}

/// Reads the header of a file.
pub fn read_header(buf: &[u8]) -> (r: Result<PrtHeader, DecodeError>)
    ensures
        r == prt_header(buf@),
{
    let version: u16 = buf.read_u16(4)?;
    if version != 101 && version != 102 {
        return Err(DecodeError::PrtVersion { version });
    }
    let bpp: u16 = buf.read_u16(6)?;
    let palette_pos: u16 = buf.read_u16(8)?;
    let pixel_pos: u16 = buf.read_u16(10)?;
    let has_alpha: bool = buf.read_u32(16)? != 0;
    let width: u32;
    let height: u32;
    if version == 102 {
        width = buf.read_u32(28)?;
        height = buf.read_u32(32)?;
    } else {
        width = buf.read_u16(12)? as u32;
        height = buf.read_u16(14)? as u32;
    }
    Ok(PrtHeader { bpp, palette_pos, pixel_pos, has_alpha, width, height })
}

/// The numbers of a header stay below 2^52.
proof fn lemma_stride(h: PrtHeader, r: int)
    requires
        0 <= r < h.height,
    ensures
        0 <= h.stride() <= 0x2_0000_0000_0000,
        h.width * (h.bpp / 8) <= 0x1FFF_FFFF_FFFF,
        0 <= h.row_pos(r) <= 0x1_0000 + 0x2_0000_0000_0000 * 0xFFFF_FFFF,
        h.stride() * (h.height - 1 - r) <= 0x2_0000_0000_0000 * 0xFFFF_FFFF,
{
    let w = h.width as int;
    let b = h.bpp as int / 8;
    assert(0 <= w * b <= 0xFFFF_FFFF * 0x1FFF) by (nonlinear_arith)
        requires
            0 <= w <= 0xFFFF_FFFF,
            0 <= b <= 0x1FFF,
    ;
    let s = h.stride();
    let k = h.height - 1 - r;
    assert(0 <= s * k <= 0x2_0000_0000_0000 * 0xFFFF_FFFF) by (nonlinear_arith)
        requires
            0 <= s <= 0x2_0000_0000_0000,
            0 <= k <= 0xFFFF_FFFF,
    ;
}

/// Reads a palettized image.
fn read_indexed(h: &PrtHeader, buf: &[u8]) -> (r: Result<Frame, DecodeError>)
    requires
        h.bpp == 8,
    ensures
        match prt_frame(*h, buf@) {
            Ok(v) => r matches Ok(f) && f@ == v && f.wf(),
            Err(e) => r matches Err(e2) && e2 == e,
        },
{
    let total: usize = buf.len();
    let mut pixels: Vec<Pixel> = Vec::new();
    let stride: u64 = ((h.width as u64 + 3) / 4) * 4;
    assert(h.width * (h.bpp / 8) == h.width) by (nonlinear_arith)
        requires
            h.bpp == 8,
    ;
    let mut row: u32 = 0;
    while row < h.height
        invariant
            row <= h.height,
            h.bpp == 8,
            total == buf@.len(),
            stride == h.stride(),
            pixels@.len() == row * h.width,
            forall|r: int| 0 <= r < row ==> prt_row_ok(*h, buf@, r),
            forall|i: int| 0 <= i < pixels@.len() ==> pixels@[i] == prt_indexed_pixel(*h, buf@, i),
        decreases h.height - row,
    {
        proof {
            lemma_stride(*h, row as int);
        }
        let pos: u128 = h.pixel_pos as u128 + stride as u128 * (h.height - 1 - row) as u128;
        if h.palette_pos as usize > total || pos > total as u128 {
            assert(!prt_row_ok(*h, buf@, row as int));
            return Err(DecodeError::PixelData);
        }
        let clut: &[u8] = &buf[h.palette_pos as usize..total];
        let bytes: &[u8] = &buf[pos as usize..total];
        assert(clut@ == buf@.skip(h.palette_pos as int));
        assert(bytes@ == buf@.skip(h.row_pos(row as int)));
        let line: Frame = match Frame::try_new(PixelFormat::BgrxClut8, h.width, 1, clut, bytes) {
            Some(line) => line,
            None => {
                assert(!prt_row_ok(*h, buf@, row as int));
                return Err(DecodeError::PixelData);
            },
        };
        assert(line.pixels@.len() == h.width) by {
            assert(h.width * 1 == h.width) by (nonlinear_arith);
        }
        let ghost before = pixels@;
        let mut x: usize = 0;
        while x < line.pixels.len()
            invariant
                x <= line.pixels@.len(),
                line.pixels@.len() == h.width,
                pixels@ == before + line.pixels@.subrange(0, x as int),
            decreases line.pixels@.len() - x,
        {
            pixels.push(line.pixels[x]);
            x += 1;
            assert(pixels@ =~= before + line.pixels@.subrange(0, x as int));
        }
        proof {
            let w = h.width as int;
            assert(row * w + w == (row + 1) * w) by (nonlinear_arith);
            assert forall|i: int| 0 <= i < pixels@.len() implies pixels@[i] == prt_indexed_pixel(
                *h,
                buf@,
                i,
            ) by {
                if i >= before.len() {
                    lemma_cell(w, i - row * w, row as int);
                }
            }
        }
        row += 1;
    }
    proof {
        assert(h.height * h.width == h.width * h.height) by (nonlinear_arith);
        assert(pixels@ =~= Seq::new(
            (h.width * h.height) as nat,
            |i: int| prt_indexed_pixel(*h, buf@, i),
        ));
    }
    Ok(Frame { width: h.width, height: h.height, og_fmt: PixelFormat::BgrxClut8, pixels })
}

/// Reads a direct image.
fn read_direct(h: &PrtHeader, buf: &[u8]) -> (r: Result<Frame, DecodeError>)
    requires
        h.bpp == 24,
    ensures
        match prt_frame(*h, buf@) {
            Ok(v) => r matches Ok(f) && f@ == v && f.wf(),
            Err(e) => r matches Err(e2) && e2 == e,
        },
{
    let total: usize = buf.len();
    let mut pixels: Vec<Pixel> = Vec::new();
    let stride: u64 = ((h.width as u64 * 3 + 3) / 4) * 4;
    assert(h.width * (h.bpp / 8) == h.width * 3) by (nonlinear_arith)
        requires
            h.bpp == 24,
    ;
    assert(stride * h.height <= 0x2_0000_0000_0000 * 0xFFFF_FFFF) by (nonlinear_arith)
        requires
            0 <= stride <= 0x2_0000_0000_0000,
            0 <= h.height <= 0xFFFF_FFFF,
    ;
    let alpha_start: u128 = h.pixel_pos as u128 + stride as u128 * h.height as u128;
    let mut row: u32 = 0;
    while row < h.height
        invariant
            row <= h.height,
            h.bpp == 24,
            total == buf@.len(),
            stride == h.stride(),
            alpha_start == h.alpha_pos(),
            alpha_start <= 0x1_0000 + 0x2_0000_0000_0000 * 0xFFFF_FFFF,
            pixels@.len() == row * h.width,
            forall|i: int| 0 <= i < pixels@.len() ==> prt_direct_ok(*h, buf@, i),
            forall|i: int| 0 <= i < pixels@.len() ==> pixels@[i] == prt_direct_pixel(*h, buf@, i),
        decreases h.height - row,
    {
        proof {
            lemma_stride(*h, row as int);
        }
        let start: u128 = h.pixel_pos as u128 + stride as u128 * (h.height - 1 - row) as u128;
        let mut x: u32 = 0;
        while x < h.width
            invariant
                row < h.height,
                x <= h.width,
                h.bpp == 24,
                total == buf@.len(),
                stride == h.stride(),
                alpha_start == h.alpha_pos(),
                start == h.row_pos(row as int),
                start <= 0x1_0000 + 0x2_0000_0000_0000 * 0xFFFF_FFFF,
                alpha_start <= 0x1_0000 + 0x2_0000_0000_0000 * 0xFFFF_FFFF,
                pixels@.len() == row * h.width + x,
                forall|i: int| 0 <= i < pixels@.len() ==> prt_direct_ok(*h, buf@, i),
                forall|i: int|
                    0 <= i < pixels@.len() ==> pixels@[i] == prt_direct_pixel(*h, buf@, i),
            decreases h.width - x,
        {
            proof {
                lemma_cell(h.width as int, x as int, row as int);
                lemma_cell_bound(h.width as int, h.height as int, x as int, row as int);
            }
            let i: u128 = pixels.len() as u128;
            let pos: u128 = start + 3 * x as u128;
            if pos + 3 > total as u128 || (h.has_alpha && alpha_start + i >= total as u128) {
                assert(!prt_direct_ok(*h, buf@, i as int));
                return Err(DecodeError::PixelData);
            }
            let at: usize = pos as usize;
            let a: u8 = if h.has_alpha {
                buf[(alpha_start + i) as usize]
            } else {
                255
            };
            pixels.push(Pixel { r: buf[at + 2], g: buf[at + 1], b: buf[at], a });
            x += 1;
        }
        proof {
            let w = h.width as int;
            assert(row * w + w == (row + 1) * w) by (nonlinear_arith);
        }
        row += 1;
    }
    proof {
        assert(h.height * h.width == h.width * h.height) by (nonlinear_arith);
        assert(pixels@ =~= Seq::new(
            (h.width * h.height) as nat,
            |i: int| prt_direct_pixel(*h, buf@, i),
        ));
    }
    Ok(Frame { width: h.width, height: h.height, og_fmt: PixelFormat::Bgra, pixels })
}

/// Decodes a file.
pub fn decode(bytes: &[u8]) -> (r: Result<Image, DecodeError>)
    ensures
        image_outcome(r) == prt_decoded(bytes@),
        r matches Ok(image) ==> image.wf(),
{
    let magic: [u8; 4] = [0x50, 0x52, 0x54, 0];
    assert(magic@ =~= prt_magic());
    let buf: &[u8] = if bytes.starts_with_at(magic.as_slice(), 0) {
        bytes
    } else if bytes.len() >= 16 {
        &bytes[16..bytes.len()]
    } else {
        &bytes[bytes.len()..bytes.len()]
    };
    assert(buf@ =~= prt_body(bytes@));
    let h: PrtHeader = read_header(buf)?;
    let frame: Frame = if h.bpp == 8 {
        read_indexed(&h, buf)?
    } else if h.bpp == 24 {
        read_direct(&h, buf)?
    } else {
        return Err(DecodeError::PrtBpp { bpp: h.bpp });
    };
    let mut frames: Vec<Frame> = Vec::new();
    frames.push(frame);
    assert(frame_views(frames@) =~= seq![frames@[0]@]);
    Ok(Image { frames })
}

} // verus!
