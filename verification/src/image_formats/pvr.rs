use crate::byte_slice::{fits, le_u16, le_u32, ByteSlice};
use crate::error::{DecodeError, PvrPart};
use crate::image::{
    bit_twiddle,
    convertible,
    decoded_pixels,
    frame_views,
    image_outcome,
    lemma_cell,
    lemma_cell_bound,
    twiddled_index,
    untwiddled_pixels,
    Frame,
    FrameView,
    Image,
    ImageView,
    Pixel,
    PixelFormat,
};
use vstd::prelude::*;

verus! {

/// The four bytes `GBIX`.
pub open spec fn gbix_magic() -> Seq<u8> {
    seq![0x47u8, 0x42u8, 0x49u8, 0x58u8]
}

/// The four bytes `PVPL`.
pub open spec fn pvpl_magic() -> Seq<u8> {
    seq![0x50u8, 0x56u8, 0x50u8, 0x4Cu8]
}

/// The four bytes `PVRT`.
pub open spec fn pvrt_magic() -> Seq<u8> {
    seq![0x50u8, 0x56u8, 0x52u8, 0x54u8]
}

/// Whether `magic` stands at `pos`.
pub open spec fn tagged(buf: Seq<u8>, pos: int, magic: Seq<u8>) -> bool {
    fits(buf, pos, 4) && buf.subrange(pos, pos + 4) == magic
}

/// The distance from `pos` to the end of the bytes, or zero beyond it.
pub open spec fn pvr_left(buf: Seq<u8>, pos: int) -> int {
    if pos < buf.len() {
        buf.len() - pos
    } else {
        0
    }
}

/// What a walk over the chunks of a file finds.
#[derive(Clone, Debug, PartialEq, Eq)]
pub struct PvrChunks {
    /// Where the last texture chunk starts.
    pub tex_start: usize,
    /// The length that the last texture chunk gives, or zero where there is none.
    pub tex_len: usize,
    /// Where each palette starts, and its length.
    pub palettes: Vec<(usize, usize)>,
}

/// What a walk over the chunks of a file finds, with a sequence of palette ranges.
pub struct PvrChunksView {
    pub tex_start: usize,
    pub tex_len: usize,
    pub palettes: Seq<(usize, usize)>,
}

impl View for PvrChunks {
    type V = PvrChunksView;

    open spec fn view(&self) -> PvrChunksView {
        PvrChunksView {
            tex_start: self.tex_start,
            tex_len: self.tex_len,
            palettes: self.palettes@,
        }
    }
}

/// The chunks from `pos` on, added to `found`. A chunk is a tag of four bytes, a length
/// of four bytes, and as many bytes as the length says. A palette chunk keeps its
/// colors from its offset 16 on; a texture chunk is kept whole.
pub open spec fn pvr_walk(buf: Seq<u8>, pos: int, found: PvrChunksView) -> Result<
    PvrChunksView,
    DecodeError,
>
    decreases pvr_left(buf, pos),
{
    let len = le_u32(buf, pos + 4);
    if pos >= buf.len() {
        Ok(found)
    } else if !fits(buf, pos + 4, 4) {
        Err(DecodeError::ReadField)
    } else if tagged(buf, pos, pvpl_magic()) {
        if len < 8 || !fits(buf, pos + 16, len - 8) {
            Err(DecodeError::PvplLength)
        } else {
            pvr_walk(
                buf,
                pos + len + 8,
                PvrChunksView {
                    palettes: found.palettes.push(((pos + 16) as usize, (len - 8) as usize)),
                    ..found
                },
            )
        }
    } else if tagged(buf, pos, pvrt_magic()) {
        pvr_walk(
            buf,
            pos + len + 8,
            PvrChunksView { tex_start: pos as usize, tex_len: len as usize, ..found },
        )
    } else {
        pvr_walk(buf, pos + len + 8, found)
    }
}

/// Whether the twiddle type says that the pixels are stored twiddled.
pub open spec fn pvr_is_twiddled(twiddle_type: u8) -> bool {
    twiddle_type == 1 || twiddle_type == 2 || twiddle_type == 5 || twiddle_type == 6
        || twiddle_type == 7 || twiddle_type == 8 || twiddle_type == 13
}

/// Whether the index of the block that pixel number `p` lies in can be read. An image
/// is cut into blocks of 2 by 2 pixels; the indices of the blocks are stored twiddled.
pub open spec fn vq_index_ok(indices: Seq<u8>, width: int, height: int, p: int) -> bool {
    (p % width) / 2 < width / 2 && (p / width) / 2 < height / 2 ==> twiddled_index(
        ((p % width) / 2) as nat,
        ((p / width) / 2) as nat,
    ) < indices.len()
}

/// Whether the index of every block of an image can be read.
pub open spec fn vq_indices_ok(indices: Seq<u8>, width: int, height: int) -> bool {
    forall|p: int| 0 <= p < width * height ==> #[trigger] vq_index_ok(indices, width, height, p)
}

/// Byte number `j` of the 16-bit pixels of an image stored as indices into a codebook.
/// A codebook entry holds the four pixels of a block: top left, bottom left, top
/// right, bottom right. Pixels in a last odd column or row are zero.
pub open spec fn vq_byte(codebook: Seq<u8>, indices: Seq<u8>, width: int, height: int, j: int) -> u8 {
    let x = (j / 2) % width;
    let y = (j / 2) / width;
    if x / 2 < width / 2 && y / 2 < height / 2 {
        codebook[indices[twiddled_index((x / 2) as nat, (y / 2) as nat) as int] * 8 + (x % 2) * 4
            + (y % 2) * 2 + j % 2]
    } else {
        0
    }
}

/// The 16-bit pixels of an image stored as indices into a codebook.
pub open spec fn vq_bytes(codebook: Seq<u8>, indices: Seq<u8>, width: int, height: int) -> Seq<u8> {
    Seq::new((width * height * 2) as nat, |j: int| vq_byte(codebook, indices, width, height, j))
}

/// The layout of direct pixels that a format code stands for.
pub open spec fn pvr_direct_format(code: u8) -> PixelFormat {
    if code == 0 {
        PixelFormat::Bgra16
    } else if code == 1 {
        PixelFormat::Bgr16
    } else {
        PixelFormat::Bgra4444
    }
}

/// The label of a frame whose pixels came out of a codebook.
pub open spec fn pvr_vq_format(code: u8) -> PixelFormat {
    if code == 0 {
        PixelFormat::Bgra5551Vq8
    } else if code == 1 {
        PixelFormat::Bgr565Vq8
    } else {
        PixelFormat::Bgra4444Vq8
    }
}

/// What names the missing data of a format where the file is too short.
pub open spec fn pvr_pixels_part(code: u8) -> PvrPart {
    if code == 0 {
        PvrPart::Pixels5551
    } else if code == 1 {
        PvrPart::Pixels565
    } else {
        PvrPart::Pixels4444
    }
}

/// A frame of the raw data `raw` in the layout `fmt`, shown under `label`.
pub open spec fn pvr_converted(
    fmt: PixelFormat,
    label: PixelFormat,
    width: u16,
    height: u16,
    clut: Seq<u8>,
    raw: Seq<u8>,
) -> Result<FrameView, DecodeError> {
    let pixels = decoded_pixels(fmt, width as int, height as int, clut, raw);
    if raw.len() > usize::MAX || !convertible(fmt, width as int, height as int, clut, raw)
        || pixels.len() != width * height {
        Err(DecodeError::PixelData)
    } else {
        Ok(FrameView { width: width as u32, height: height as u32, og_fmt: label, pixels })
    }
}

/// The frame of a texture chunk `t` before any twiddling is undone, with the palette
/// `palette` from a palette chunk, or none. The chunk gives the format code at offset
/// 8, the twiddle type at 9, the size at 12; its data starts at 16.
pub open spec fn pvr_plain_frame(t: Seq<u8>, palette: Seq<u8>) -> Result<FrameView, DecodeError> {
    let code = t[8];
    let twiddle_type = t[9];
    let width = le_u16(t, 12);
    let height = le_u16(t, 14);
    let area = width * height;
    if code <= 2 {
        if twiddle_type == 3 {
            if !fits(t, 16, 2048) {
                Err(DecodeError::PvrData { part: PvrPart::VqCodebook })
            } else if !fits(t, 2064, area / 4) {
                Err(DecodeError::PvrData { part: PvrPart::VqIndices })
            } else if !vq_indices_ok(
                t.subrange(2064, 2064 + area / 4),
                width as int,
                height as int,
            ) {
                Err(DecodeError::PixelData)
            } else {
                pvr_converted(
                    pvr_direct_format(code),
                    pvr_vq_format(code),
                    width,
                    height,
                    Seq::empty(),
                    vq_bytes(
                        t.subrange(16, 2064),
                        t.subrange(2064, 2064 + area / 4),
                        width as int,
                        height as int,
                    ),
                )
            }
        } else if !fits(t, 16, area * 2) {
            Err(DecodeError::PvrData { part: pvr_pixels_part(code) })
        } else {
            pvr_converted(
                pvr_direct_format(code),
                pvr_direct_format(code),
                width,
                height,
                Seq::empty(),
                t.subrange(16, 16 + area * 2),
            )
        }
    } else if code == 5 || code == 6 {
        let fmt = if code == 5 {
            PixelFormat::BgraClut4
        } else {
            PixelFormat::BgraClut8
        };
        let n = if code == 5 {
            area / 2
        } else {
            area as int
        };
        if twiddle_type == 7 && palette.len() == 0 {
            Err(DecodeError::PvrExternalPalette)
        } else if palette.len() == 0 {
            if !fits(t, 16, 1024) {
                Err(
                    DecodeError::PvrData {
                        part: if code == 5 {
                            PvrPart::Palette4
                        } else {
                            PvrPart::Palette8
                        },
                    },
                )
            } else if !fits(t, 1040, n) {
                Err(
                    DecodeError::PvrData {
                        part: if code == 5 {
                            PvrPart::Indices4
                        } else {
                            PvrPart::Indices8
                        },
                    },
                )
            } else {
                pvr_converted(
                    fmt,
                    fmt,
                    width,
                    height,
                    t.subrange(16, 1040),
                    t.subrange(1040, 1040 + n),
                )
            }
        } else if !fits(t, 16, n) {
            Err(
                DecodeError::PvrData {
                    part: if code == 5 {
                        PvrPart::Data4
                    } else {
                        PvrPart::Data8
                    },
                },
            )
        } else {
            pvr_converted(fmt, fmt, width, height, palette, t.subrange(16, 16 + n))
        }
    } else {
        Err(DecodeError::PvrFormat { pixel_format: code })
    }
}

/// The frame of a texture chunk with one palette.
pub open spec fn pvr_frame(t: Seq<u8>, palette: Seq<u8>) -> Result<FrameView, DecodeError> {
    match pvr_plain_frame(t, palette) {
        Err(e) => Err(e),
        Ok(frame) => if pvr_is_twiddled(t[9]) {
            Ok(
                FrameView {
                    pixels: untwiddled_pixels(
                        frame.pixels,
                        frame.width as int,
                        frame.height as int,
                    ),
                    ..frame
                },
            )
        } else {
            Ok(frame)
        },
    }
}

/// The bytes of palette number `i`, or none where no palette chunk was found.
pub open spec fn pvr_palette(buf: Seq<u8>, palettes: Seq<(usize, usize)>, i: int) -> Seq<u8> {
    if palettes.len() == 0 {
        Seq::empty()
    } else {
        buf.subrange(palettes[i].0 as int, palettes[i].0 + palettes[i].1)
    }
}

/// `acc` followed by the frames for the palettes from `i` on: one frame for each
/// palette, and one where there is no palette.
pub open spec fn pvr_frames(
    buf: Seq<u8>,
    t: Seq<u8>,
    palettes: Seq<(usize, usize)>,
    i: int,
    acc: Seq<FrameView>,
) -> Result<Seq<FrameView>, DecodeError>
    decreases palettes.len() + 1 - i,
{
    if i >= palettes.len() && !(i == 0 && palettes.len() == 0) {
        Ok(acc)
    } else if i < 0 {
        Ok(acc)
    } else {
        match pvr_frame(t, pvr_palette(buf, palettes, i)) {
            Err(e) => Err(e),
            Ok(frame) => if palettes.len() == 0 {
                Ok(acc.push(frame))
            } else {
                pvr_frames(buf, t, palettes, i + 1, acc.push(frame))
            },
        }
    }
}

/// What a file decodes to.
pub open spec fn pvr_decoded(buf: Seq<u8>) -> Result<ImageView, DecodeError> {
    match pvr_walk(
        buf,
        0,
        PvrChunksView { tex_start: 0, tex_len: 0, palettes: Seq::empty() },
    ) {
        Err(e) => Err(e),
        Ok(found) => {
            let t = buf.subrange(found.tex_start as int, found.tex_start + found.tex_len + 8);
            if found.tex_len == 0 {
                Err(DecodeError::PvrNoTexture)
            } else if !fits(buf, found.tex_start as int, found.tex_len + 8) {
                Err(DecodeError::PvrtLength)
            } else if !fits(t, 14, 2) {
                Err(DecodeError::ReadField)
            } else {
                match pvr_frames(buf, t, found.palettes, 0, Seq::empty()) {
                    Err(e) => Err(e),
                    Ok(frames) => Ok(ImageView { frames }),
                }
            }
        },
    }
}

/// Walks over the chunks of a file.
pub fn walk(buf: &[u8]) -> (r: Result<PvrChunks, DecodeError>)
    ensures
        match pvr_walk(
            buf@,
            0,
            PvrChunksView { tex_start: 0, tex_len: 0, palettes: Seq::empty() },
        ) {
            Ok(v) => r matches Ok(c) && c@ == v && c.tex_start <= buf@.len() && forall|i: int|
                0 <= i < c.palettes@.len() ==> (#[trigger] c.palettes@[i]).0 + c.palettes@[i].1
                    <= buf@.len(),
            Err(e) => r matches Err(e2) && e2 == e,
        },
{
    let pvpl: [u8; 4] = [0x50, 0x56, 0x50, 0x4C];
    let pvrt: [u8; 4] = [0x50, 0x56, 0x52, 0x54];
    assert(pvpl@ =~= pvpl_magic());
    assert(pvrt@ =~= pvrt_magic());
    let mut found = PvrChunks { tex_start: 0, tex_len: 0, palettes: Vec::new() };
    let mut pos: usize = 0;
    while pos < buf.len()
        invariant
            pvpl@ == pvpl_magic(),
            pvrt@ == pvrt_magic(),
            found.tex_start <= buf@.len(),
            forall|i: int|
                0 <= i < found.palettes@.len() ==> (#[trigger] found.palettes@[i]).0
                    + found.palettes@[i].1 <= buf@.len(),
            pvr_walk(buf@, pos as int, found@) == pvr_walk(
                buf@,
                0,
                PvrChunksView { tex_start: 0, tex_len: 0, palettes: Seq::empty() },
            ),
        decreases pvr_left(buf@, pos as int),
    {
        if buf.len() < 8 || pos > buf.len() - 8 {
            return Err(DecodeError::ReadField);
        }
        let len: usize = buf.read_u32(pos + 4)? as usize;
        if buf.starts_with_at(pvpl.as_slice(), pos) {
            if len < 8 || buf.len() - pos < 16 || len - 8 > buf.len() - pos - 16 {
                return Err(DecodeError::PvplLength);
            }
            found.palettes.push((pos + 16, len - 8));
        } else if buf.starts_with_at(pvrt.as_slice(), pos) {
            found.tex_start = pos;
            found.tex_len = len;
        }
        if len > buf.len() - pos - 8 {
            assert(pvr_walk(buf@, pos + len + 8, found@) == Ok::<PvrChunksView, DecodeError>(
                found@,
            ));
            pos = buf.len();
            assert(pvr_walk(buf@, pos as int, found@) == Ok::<PvrChunksView, DecodeError>(
                found@,
            ));
        } else {
            pos = pos + len + 8;
        }
    }
    Ok(found)
}

/// Unpacks the 16-bit pixels of an image stored as indices into a codebook, or gives
/// `None` where an index cannot be read.
fn vq_unpack(codebook: &[u8], indices: &[u8], width: u16, height: u16) -> (r: Option<Vec<u8>>)
    requires
        codebook@.len() == 2048,
        width * height * 2 <= usize::MAX,
    ensures
        r is Some == vq_indices_ok(indices@, width as int, height as int),
        r matches Some(v) ==> v@ == vq_bytes(codebook@, indices@, width as int, height as int),
{
    let mut out: Vec<u8> = Vec::new();
    let total: usize = indices.len();
    let mut y: u16 = 0;
    while y < height
        invariant
            y <= height,
            codebook@.len() == 2048,
            total == indices@.len(),
            out@.len() == y * width * 2,
            forall|p: int|
                0 <= p < y * width ==> vq_index_ok(indices@, width as int, height as int, p),
            forall|j: int|
                0 <= j < out@.len() ==> out@[j] == vq_byte(
                    codebook@,
                    indices@,
                    width as int,
                    height as int,
                    j,
                ),
        decreases height - y,
    {
        let mut x: u16 = 0;
        while x < width
            invariant
                y < height,
                x <= width,
                codebook@.len() == 2048,
                total == indices@.len(),
                out@.len() == (y * width + x) * 2,
                forall|p: int|
                    0 <= p < y * width + x ==> vq_index_ok(
                        indices@,
                        width as int,
                        height as int,
                        p,
                    ),
                forall|j: int|
                    0 <= j < out@.len() ==> out@[j] == vq_byte(
                        codebook@,
                        indices@,
                        width as int,
                        height as int,
                        j,
                    ),
            decreases width - x,
        {
            proof {
                lemma_cell(width as int, x as int, y as int);
                lemma_cell_bound(width as int, height as int, x as int, y as int);
            }
            let ghost p = y * width + x;
            if x / 2 < width / 2 && y / 2 < height / 2 {
                let index: u128 = bit_twiddle((y / 2) as u32) as u128 + 2 * bit_twiddle(
                    (x / 2) as u32,
                ) as u128;
                if index >= total as u128 {
                    assert(!vq_index_ok(indices@, width as int, height as int, p));
                    return None;
                }
                let entry: usize = indices[index as usize] as usize * 8 + (x % 2) as usize * 4 + (y
                    % 2) as usize * 2;
                out.push(codebook[entry]);
                out.push(codebook[entry + 1]);
            } else {
                out.push(0);
                out.push(0);
            }
            x += 1;
        }
        proof {
            if width > 0 {
                lemma_cell_bound(width as int, height as int, 0, y as int);
            } else {
                assert(y * width == 0 && (y + 1) * width == 0) by (nonlinear_arith)
                    requires
                        width == 0,
                ;
            }
        }
        y += 1;
    }
    proof {
        assert(height * width == width * height) by (nonlinear_arith);
        assert(out@ =~= vq_bytes(codebook@, indices@, width as int, height as int));
    }
    Some(out)
}

/// Makes a frame of raw data, under a label.
fn convert(fmt: PixelFormat, label: PixelFormat, width: u16, height: u16, clut: &[u8], raw: &[u8]) -> (r:
    Result<Frame, DecodeError>)
    ensures
        match pvr_converted(fmt, label, width, height, clut@, raw@) {
            Ok(v) => r matches Ok(f) && f@ == v && f.wf(),
            Err(e) => r matches Err(e2) && e2 == e,
        },
{
    let total: usize = raw.len();
    let frame: Frame = match Frame::try_new(fmt, width as u32, height as u32, clut, raw) {
        Some(frame) => frame,
        None => {
            return Err(DecodeError::PixelData);
        },
    };
    assert(width * height <= 0xFFFF * 0xFFFF) by (nonlinear_arith)
        requires
            0 <= width <= 0xFFFF,
            0 <= height <= 0xFFFF,
    ;
    if frame.pixels.len() as u64 != width as u64 * height as u64 {
        return Err(DecodeError::PixelData);
    }
    Ok(frame.with_og_fmt(label))
}

/// Reads the frame of a texture chunk before any twiddling is undone.
fn read_plain_frame(t: &[u8], palette: &[u8]) -> (r: Result<Frame, DecodeError>)
    requires
        fits(t@, 14, 2),
    ensures
        match pvr_plain_frame(t@, palette@) {
            Ok(v) => r matches Ok(f) && f@ == v && f.wf(),
            Err(e) => r matches Err(e2) && e2 == e,
        },
{
    let code: u8 = t[8];
    let twiddle_type: u8 = t[9];
    let width: u16 = t[12] as u16 + t[13] as u16 * 0x100;
    let height: u16 = t[14] as u16 + t[15] as u16 * 0x100;
    assert(width * height <= 0xFFFF * 0xFFFF) by (nonlinear_arith)
        requires
            0 <= width <= 0xFFFF,
            0 <= height <= 0xFFFF,
    ;
    let area: u64 = width as u64 * height as u64;
    let room: u64 = t.len() as u64 - 16;
    let none: Vec<u8> = Vec::new();
    if code <= 2 {
        let fmt: PixelFormat = if code == 0 {
            PixelFormat::Bgra16
        } else if code == 1 {
            PixelFormat::Bgr16
        } else {
            PixelFormat::Bgra4444
        };
        if twiddle_type == 3 {
            let label: PixelFormat = if code == 0 {
                PixelFormat::Bgra5551Vq8
            } else if code == 1 {
                PixelFormat::Bgr565Vq8
            } else {
                PixelFormat::Bgra4444Vq8
            };
            if room < 2048 {
                return Err(DecodeError::PvrData { part: PvrPart::VqCodebook });
            }
            if room - 2048 < area / 4 {
                return Err(DecodeError::PvrData { part: PvrPart::VqIndices });
            }
            if area * 2 > usize::MAX as u64 {
                return Err(DecodeError::PixelData);
            }
            let raw: Vec<u8> = match vq_unpack(
                &t[16..2064],
                &t[2064..2064 + (area / 4) as usize],
                width,
                height,
            ) {
                Some(raw) => raw,
                None => {
                    return Err(DecodeError::PixelData);
                },
            };
            convert(fmt, label, width, height, none.as_slice(), raw.as_slice())
        } else {
            if room < area * 2 {
                return Err(
                    DecodeError::PvrData {
                        part: if code == 0 {
                            PvrPart::Pixels5551
                        } else if code == 1 {
                            PvrPart::Pixels565
                        } else {
                            PvrPart::Pixels4444
                        },
                    },
                );
            }
            convert(fmt, fmt, width, height, none.as_slice(), &t[16..16 + (area * 2) as usize])
        }
    } else if code == 5 || code == 6 {
        let fmt: PixelFormat = if code == 5 {
            PixelFormat::BgraClut4
        } else {
            PixelFormat::BgraClut8
        };
        let n: u64 = if code == 5 {
            area / 2
        } else {
            area
        };
        if twiddle_type == 7 && palette.len() == 0 {
            Err(DecodeError::PvrExternalPalette)
        } else if palette.len() == 0 {
            if room < 1024 {
                return Err(
                    DecodeError::PvrData {
                        part: if code == 5 {
                            PvrPart::Palette4
                        } else {
                            PvrPart::Palette8
                        },
                    },
                );
            }
            if room - 1024 < n {
                return Err(
                    DecodeError::PvrData {
                        part: if code == 5 {
                            PvrPart::Indices4
                        } else {
                            PvrPart::Indices8
                        },
                    },
                );
            }
            convert(fmt, fmt, width, height, &t[16..1040], &t[1040..1040 + n as usize])
        } else {
            if room < n {
                return Err(
                    DecodeError::PvrData {
                        part: if code == 5 {
                            PvrPart::Data4
                        } else {
                            PvrPart::Data8
                        },
                    },
                );
            }
            convert(fmt, fmt, width, height, palette, &t[16..16 + n as usize])
        }
    } else {
        Err(DecodeError::PvrFormat { pixel_format: code })
    }
}

/// Reads the frame of a texture chunk with one palette.
fn read_frame(t: &[u8], palette: &[u8]) -> (r: Result<Frame, DecodeError>)
    requires
        fits(t@, 14, 2),
    ensures
        match pvr_frame(t@, palette@) {
            Ok(v) => r matches Ok(f) && f@ == v && f.wf(),
            Err(e) => r matches Err(e2) && e2 == e,
        },
{
    let frame: Frame = read_plain_frame(t, palette)?;
    let twiddle_type: u8 = t[9];
    if twiddle_type == 1 || twiddle_type == 2 || twiddle_type == 5 || twiddle_type == 6
        || twiddle_type == 7 || twiddle_type == 8 || twiddle_type == 13 {
        Ok(frame.twiddled_dc())
    } else {
        Ok(frame)
    }
}

/// Decodes a file.
#[verifier::loop_isolation(false)]
pub fn decode(buf: &[u8]) -> (r: Result<Image, DecodeError>)
    ensures
        image_outcome(r) == pvr_decoded(buf@),
        r matches Ok(image) ==> image.wf(),
{
    let found: PvrChunks = walk(buf)?;
    if found.tex_len == 0 {
        return Err(DecodeError::PvrNoTexture);
    }
    if buf.len() - found.tex_start < 8 || found.tex_len > buf.len() - found.tex_start - 8 {
        return Err(DecodeError::PvrtLength);
    }
    let t: &[u8] = &buf[found.tex_start..found.tex_start + found.tex_len + 8];
    if t.len() < 16 {
        return Err(DecodeError::ReadField);
    }
    let mut frames: Vec<Frame> = Vec::new();
    assert(frame_views(frames@) =~= Seq::empty());
    if found.palettes.len() == 0 {
        let none: Vec<u8> = Vec::new();
        let frame: Frame = read_frame(t, none.as_slice())?;
        frames.push(frame);
        assert(frame_views(frames@) =~= Seq::<FrameView>::empty().push(frames@[0]@));
        return Ok(Image { frames });
    }
    let mut i: usize = 0;
    while i < found.palettes.len()
        invariant
            i <= found.palettes@.len(),
            0 < found.palettes@.len(),
            frames@.len() == i,
            crate::image::all_wf(frames@),
            fits(t@, 14, 2),
            forall|k: int|
                0 <= k < found.palettes@.len() ==> (#[trigger] found.palettes@[k]).0
                    + found.palettes@[k].1 <= buf@.len(),
            pvr_frames(buf@, t@, found.palettes@, i as int, frame_views(frames@)) == pvr_frames(
                buf@,
                t@,
                found.palettes@,
                0,
                Seq::empty(),
            ),
        decreases found.palettes@.len() - i,
    {
        let range: (usize, usize) = found.palettes[i];
        assert(found.palettes@[i as int].0 + found.palettes@[i as int].1 <= buf@.len());
        let frame: Frame = read_frame(t, &buf[range.0..range.0 + range.1])?;
        let ghost before = frames@;
        frames.push(frame);
        proof {
            assert(frame_views(frames@) =~= frame_views(before).push(frames@[i as int]@));
        }
        i += 1;
    }
    Ok(Image { frames })
}

} // verus!
