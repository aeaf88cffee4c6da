use crate::byte_slice::{fits, le_u16, le_u32, ByteSlice};
use crate::error::DecodeError;
use crate::image::{
    decoded_pixels,
    doubled_alpha,
    frame_views,
    image_outcome,
    Frame,
    FrameView,
    Image,
    ImageView,
    PixelFormat,
};
use crate::outside::{Picture, PictureView};
use vstd::prelude::*;

verus! {

/// The four bytes `TIM2`.
pub open spec fn tim2_magic() -> Seq<u8> {
    seq![0x54u8, 0x49u8, 0x4Du8, 0x32u8]
}

/// The eight bytes `PNGFILE3`, which mark a file of another format.
pub open spec fn pngfile3_magic() -> Seq<u8> {
    seq![0x50u8, 0x4Eu8, 0x47u8, 0x46u8, 0x49u8, 0x4Cu8, 0x45u8, 0x33u8]
}

/// The number of bits a pixel that a depth code stands for, or zero for what is no code.
pub open spec fn tim2_bpp(code: u8) -> int {
    if code == 1 {
        16
    } else if code == 2 {
        24
    } else if code == 3 {
        32
    } else if code == 4 {
        4
    } else if code == 5 {
        8
    } else {
        0
    }
}

/// The label of a frame with that depth code.
pub open spec fn tim2_format(code: u8) -> PixelFormat {
    if code == 1 {
        PixelFormat::Rgba16
    } else if code == 2 {
        PixelFormat::Rgb
    } else if code == 3 {
        PixelFormat::Rgba
    } else if code == 4 {
        PixelFormat::RgbaClut4
    } else {
        PixelFormat::RgbaClut8
    }
}

/// The number of units of `unit` that cover `n`.
pub open spec fn units(n: int, unit: int) -> int {
    (n + unit - 1) / unit
}

/// What the header of the frame at `at` says.
pub struct Tim2Header {
    pub palette_size: u32,
    pub image_size: u32,
    pub header_size: u16,
    pub color_count: u16,
    pub clut_format: u8,
    pub depth: u8,
    pub width: u16,
    pub height: u16,
}

/// The header of the frame at `at`: sizes of the palette, of the image data and of the
/// header at offsets 4, 8 and 12, the number of colors at 14, the palette format and
/// the depth code at 18 and 19, the size of the image at 20.
pub open spec fn tim2_header(b: Seq<u8>, at: int) -> Tim2Header {
    Tim2Header {
        palette_size: le_u32(b, at + 4),
        image_size: le_u32(b, at + 8),
        header_size: le_u16(b, at + 12),
        color_count: le_u16(b, at + 14),
        clut_format: b[at + 18],
        depth: b[at + 19],
        width: le_u16(b, at + 20),
        height: le_u16(b, at + 22),
    }
}

impl Tim2Header {
    /// Where the image data starts, for a frame at `at`.
    pub open spec fn data_start(self, at: int) -> int {
        at + self.header_size
    }

    /// Where the palette starts.
    pub open spec fn palette_start(self, at: int) -> int {
        at + self.header_size + self.image_size
    }

    /// Where the next frame starts.
    pub open spec fn end(self, at: int) -> int {
        at + self.header_size + self.image_size + self.palette_size
    }

    /// The number of bytes of a palette color, or of a pixel where there is no palette.
    pub open spec fn color_size(self) -> int {
        if tim2_bpp(self.depth) > 8 {
            tim2_bpp(self.depth) / 8
        } else {
            self.clut_format % 8 + 1
        }
    }

    /// The number of pixels or indices that the image data holds.
    pub open spec fn data_count(self) -> int {
        if tim2_bpp(self.depth) == 4 {
            self.image_size * 2
        } else if tim2_bpp(self.depth) == 8 {
            self.image_size as int
        } else {
            self.image_size as int / (tim2_bpp(self.depth) / 8)
        }
    }

    /// The number of pixels of the image once padded to blocks of 16 by 8.
    pub open spec fn padded_area(self) -> int {
        units(self.width as int, 16) * units(self.height as int, 8) * 128
    }
}

/// The index that a byte of the image data gives for a palettized frame.
pub open spec fn tim2_index(h: Tim2Header, byte: u8) -> int {
    if tim2_bpp(h.depth) == 4 {
        byte as int % 16
    } else {
        byte as int
    }
}

/// Whether the frame at `at` is laid out so that it can be handed on to be read:
/// its header, its image data and its palette lie within the file, the image data
/// fill the padded image, a frame without a palette has whole pixels of 16 to 32
/// bits, and a frame with one has colors of two to four bytes, at least one palette,
/// and no index beyond the palette.
pub open spec fn tim2_frame_ok(b: Seq<u8>, at: int) -> bool {
    let h = tim2_header(b, at);
    &&& fits(b, at, 48)
    &&& tim2_bpp(h.depth) != 0
    &&& h.header_size >= 48
    &&& h.color_count >= 1
    &&& fits(b, at, h.end(at) - at)
    &&& h.padded_area() <= h.data_count()
    &&& h.data_count() * 4 <= usize::MAX
    &&& if h.palette_size == 0 {
        tim2_bpp(h.depth) > 8 && h.image_size as int % (tim2_bpp(h.depth) / 8) == 0
    } else {
        &&& tim2_bpp(h.depth) <= 8
        &&& 2 <= h.color_size() <= 4
        &&& h.color_count * h.color_size() <= h.palette_size
        &&& forall|i: int|
            0 <= i < h.image_size ==> tim2_index(h, #[trigger] b[h.data_start(at) + i])
                < h.color_count
    }
}

/// Whether the `n` frames from `at` on can be handed on to be read.
pub open spec fn tim2_frames_ok(b: Seq<u8>, at: int, n: int) -> bool
    decreases n,
{
    n <= 0 || (tim2_frame_ok(b, at) && tim2_frames_ok(b, tim2_header(b, at).end(at), n - 1))
}

/// Whether a file can be handed on to be read: it starts with the signature, and its
/// frames, whose number stands at offset 6 and which start at offset 16, are laid out
/// as they must be.
pub open spec fn tim2_readable(b: Seq<u8>) -> bool {
    fits(b, 0, 16) && b.subrange(0, 4) == tim2_magic() && tim2_frames_ok(
        b,
        16,
        le_u16(b, 6) as int,
    )
}

/// The depth codes of the `n` frames from `at` on.
pub open spec fn tim2_depths(b: Seq<u8>, at: int, n: int) -> Seq<u8>
    decreases n,
{
    if n <= 0 {
        Seq::empty()
    } else {
        seq![tim2_header(b, at).depth] + tim2_depths(b, tim2_header(b, at).end(at), n - 1)
    }
}

/// What the `tim2` crate reads out of a file that can be handed on to it: the size
/// and the pixels, four bytes each, of every frame; `None` where it fails.
pub uninterp spec fn tim2_pictures(bytes: Seq<u8>) -> Option<Seq<PictureView>>;

/// The views of pictures.
pub open spec fn picture_views(pictures: Seq<Picture>) -> Seq<PictureView> {
    Seq::new(pictures.len(), |i: int| pictures[i]@)
}

/// The view of what was read out of a file.
pub open spec fn pictures_outcome(r: Option<Vec<Picture>>) -> Option<Seq<PictureView>> {
    match r {
        Some(v) => Some(picture_views(v@)),
        None => None,
    }
}

/// Reads the frames of a file with `from_buffer` of the `tim2` crate and takes, of
/// each frame, `width`, `height` and its pixels: those of `data` for a frame of
/// direct colors, those of `to_raw` for a frame with a palette. The file must be laid
/// out as `tim2_readable` says: on other files the crate reads beyond the file or
/// its buffers, which stops the program. Nothing is claimed of the pictures but that
/// the same bytes always give the same pictures or failure.
#[verifier::external_body]
pub(crate) fn tim2_read(bytes: &[u8]) -> (r: Option<Vec<Picture>>)
    requires
        tim2_readable(bytes@),
    ensures
        pictures_outcome(r) == tim2_pictures(bytes@),
{
    let image = tim2::from_buffer(bytes).ok()?;
    let mut pictures = Vec::new();
    for f in image.frames() {
        let rgba = match f.data() {
            tim2::DataKind::Pixels(v) => v.iter().flat_map(|p| [p.r(), p.g(), p.b(), p.a()]).collect(),
            tim2::DataKind::Indices(_) => f.to_raw(None),
        };
        pictures.push(Picture { width: f.width() as u32, height: f.height() as u32, rgba });
    }
    Some(pictures)
}

/// The frame that picture `i` makes, labelled by the depth code of its frame; `None`
/// for a picture without pixels, which is passed over.
pub open spec fn tim2_frame(p: PictureView, depth: u8) -> Option<Result<FrameView, DecodeError>> {
    let pixels = decoded_pixels(
        PixelFormat::Rgba,
        p.width as int,
        p.height as int,
        Seq::empty(),
        p.rgba,
    );
    let label = tim2_format(depth);
    if p.rgba.len() == 0 {
        None
    } else if p.width * p.height * 4 > p.rgba.len() {
        Some(Err(DecodeError::PixelData))
    } else {
        Some(
            Ok(
                FrameView {
                    width: p.width,
                    height: p.height,
                    og_fmt: label,
                    pixels: if label == PixelFormat::RgbaClut4 || label == PixelFormat::RgbaClut8
                        || label == PixelFormat::Rgba {
                        doubled_alpha(pixels)
                    } else {
                        pixels
                    },
                },
            ),
        )
    }
}

/// `acc` followed by the frames of the pictures from `i` on.
pub open spec fn tim2_frames(
    pictures: Seq<PictureView>,
    depths: Seq<u8>,
    i: int,
    acc: Seq<FrameView>,
) -> Result<Seq<FrameView>, DecodeError>
    decreases pictures.len() - i,
{
    if i < 0 || i >= pictures.len() {
        Ok(acc)
    } else {
        match tim2_frame(pictures[i], depths[i]) {
            None => tim2_frames(pictures, depths, i + 1, acc),
            Some(Err(e)) => Err(e),
            Some(Ok(frame)) => tim2_frames(pictures, depths, i + 1, acc.push(frame)),
        }
    }
}

/// The image that the pictures read out of a file make, given the depth codes of its
/// frames. There must be a depth code for each picture, and at least one frame.
pub open spec fn tim2_image(pictures: Option<Seq<PictureView>>, depths: Seq<u8>) -> Result<
    ImageView,
    DecodeError,
> {
    match pictures {
        None => Err(DecodeError::Tim2Parse),
        Some(pictures) => if pictures.len() != depths.len() {
            Err(DecodeError::Tim2Parse)
        } else {
            match tim2_frames(pictures, depths, 0, Seq::empty()) {
                Err(e) => Err(e),
                Ok(frames) => if frames.len() == 0 {
                    Err(DecodeError::Tim2NoFrames)
                } else {
                    Ok(ImageView { frames })
                },
            }
        },
    }
}

/// What a file decodes to.
pub open spec fn tim2_decoded(b: Seq<u8>) -> Result<ImageView, DecodeError> {
    if !tim2_readable(b) {
        Err(DecodeError::Tim2Layout)
    } else {
        tim2_image(tim2_pictures(b), tim2_depths(b, 16, le_u16(b, 6) as int))
    }
}

/// Checks the frame at `at` and gives where the next one starts and its depth code.
#[verifier::loop_isolation(false)]
fn check_frame(b: &[u8], at: usize) -> (r: Option<(usize, u8)>)
    ensures
        r is Some == tim2_frame_ok(b@, at as int),
        r matches Some(found) ==> found.0 == tim2_header(b@, at as int).end(at as int) && found.1
            == tim2_header(b@, at as int).depth && at < found.0 <= b@.len(),
{
    let total: usize = b.len();
    if total < 48 || at > total - 48 {
        return None;
    }
    let palette_size: u64 = b.get_u32_at(at + 4)? as u64;
    let image_size: u64 = b.get_u32_at(at + 8)? as u64;
    let header_size: u64 = b.get_u16_at(at + 12)? as u64;
    let color_count: u64 = b.get_u16_at(at + 14)? as u64;
    let clut_format: u64 = b[at + 18] as u64;
    let depth: u8 = b[at + 19];
    let width: u64 = b.get_u16_at(at + 20)? as u64;
    let height: u64 = b.get_u16_at(at + 22)? as u64;
    let bpp: u64 = if depth == 1 {
        16
    } else if depth == 2 {
        24
    } else if depth == 3 {
        32
    } else if depth == 4 {
        4
    } else if depth == 5 {
        8
    } else {
        return None;
    };
    if header_size < 48 || color_count < 1 {
        return None;
    }
    let size: u64 = header_size + image_size + palette_size;
    if size > (total - at) as u64 {
        return None;
    }
    let across: u64 = (width + 15) / 16;
    let down: u64 = (height + 7) / 8;
    assert(across * down <= 0x1000 * 0x2000) by (nonlinear_arith)
        requires
            0 <= across <= 0x1000,
            0 <= down <= 0x2000,
    ;
    let padded: u64 = across * down * 128;
    let count: u64 = if bpp == 4 {
        image_size * 2
    } else if bpp == 8 {
        image_size
    } else if bpp == 16 {
        image_size / 2
    } else if bpp == 24 {
        image_size / 3
    } else {
        image_size / 4
    };
    if padded > count || count * 4 > usize::MAX as u64 {
        return None;
    }
    if palette_size == 0 {
        if bpp <= 8 {
            return None;
        }
        let pixel: u64 = if bpp == 16 {
            2
        } else if bpp == 24 {
            3
        } else {
            4
        };
        if image_size % pixel != 0 {
            return None;
        }
    } else {
        if bpp > 8 {
            return None;
        }
        let color_size: u64 = clut_format % 8 + 1;
        assert(color_count * color_size <= 0xFFFF * 8) by (nonlinear_arith)
            requires
                0 <= color_count <= 0xFFFF,
                0 <= color_size <= 8,
        ;
        if color_size < 2 || color_size > 4 || color_count * color_size > palette_size {
            return None;
        }
        let start: usize = at + header_size as usize;
        let ghost h = tim2_header(b@, at as int);
        let mut i: usize = 0;
        while i < image_size as usize
            invariant
                i <= image_size,
                total == b@.len(),
                start == h.data_start(at as int),
                start + image_size <= total,
                h == tim2_header(b@, at as int),
                bpp == tim2_bpp(h.depth),
                color_count == h.color_count,
                forall|k: int|
                    0 <= k < i ==> tim2_index(h, #[trigger] b@[h.data_start(at as int) + k])
                        < h.color_count,
            decreases image_size - i,
        {
            let index: u64 = if bpp == 4 {
                b[start + i] as u64 % 16
            } else {
                b[start + i] as u64
            };
            if index >= color_count {
                return None;
            }
            i += 1;
        }
    }
    Some((at + size as usize, depth))
}

/// Checks that a file can be handed on to be read, and gives the depth codes of its frames.
#[verifier::loop_isolation(false)]
pub fn check(b: &[u8]) -> (r: Option<Vec<u8>>)
    ensures
        r is Some == tim2_readable(b@),
        r matches Some(depths) ==> depths@ == tim2_depths(b@, 16, le_u16(b@, 6) as int),
{
    let magic: [u8; 4] = [0x54, 0x49, 0x4D, 0x32];
    assert(magic@ =~= tim2_magic());
    if b.len() < 16 || !b.starts_with_at(magic.as_slice(), 0) {
        return None;
    }
    let count: u16 = b.get_u16_at(6)?;
    let mut depths: Vec<u8> = Vec::new();
    let mut at: usize = 16;
    let mut i: u16 = 0;
    while i < count
        invariant
            i <= count,
            at <= b@.len(),
            tim2_frames_ok(b@, 16, count as int) == tim2_frames_ok(b@, at as int, count - i),
            depths@ + tim2_depths(b@, at as int, count - i) == tim2_depths(b@, 16, count as int),
        decreases count - i,
    {
        match check_frame(b, at) {
            Some(found) => {
                let ghost before = depths@;
                depths.push(found.1);
                assert(depths@ + tim2_depths(b@, found.0 as int, count - i - 1) =~= before
                    + tim2_depths(b@, at as int, count - i));
                at = found.0;
            },
            None => {
                return None;
            },
        }
        i += 1;
    }
    assert(depths@ =~= depths@ + tim2_depths(b@, at as int, 0));
    Some(depths)
}

/// Makes the frame of a picture, or gives `None` for a picture without pixels.
fn frame_from_picture(picture: &Picture, depth: u8) -> (r: Option<Result<Frame, DecodeError>>)
    ensures
        match tim2_frame(picture@, depth) {
            None => r is None,
            Some(Ok(v)) => r matches Some(Ok(f)) && f@ == v && f.wf(),
            Some(Err(e)) => r matches Some(Err(e2)) && e2 == e,
        },
{
    let total: usize = picture.rgba.len();
    if total == 0 {
        return None;
    }
    let none: Vec<u8> = Vec::new();
    let frame: Frame = match Frame::try_new(
        PixelFormat::Rgba,
        picture.width,
        picture.height,
        none.as_slice(),
        picture.rgba.as_slice(),
    ) {
        Some(frame) => frame,
        None => {
            return Some(Err(DecodeError::PixelData));
        },
    };
    let label: PixelFormat = if depth == 1 {
        PixelFormat::Rgba16
    } else if depth == 2 {
        PixelFormat::Rgb
    } else if depth == 3 {
        PixelFormat::Rgba
    } else if depth == 4 {
        PixelFormat::RgbaClut4
    } else {
        PixelFormat::RgbaClut8
    };
    let frame: Frame = frame.with_og_fmt(label);
    match label {
        PixelFormat::RgbaClut4 | PixelFormat::RgbaClut8 | PixelFormat::Rgba => Some(
            Ok(frame.with_double_alpha()),
        ),
        _ => Some(Ok(frame)),
    }
}

/// Makes the image of the pictures read out of a file, given the depth codes of its frames.
#[verifier::loop_isolation(false)]
pub fn image_from_pictures(pictures: Option<Vec<Picture>>, depths: &[u8]) -> (r: Result<
    Image,
    DecodeError,
>)
    ensures
        image_outcome(r) == tim2_image(pictures_outcome(pictures), depths@),
        r matches Ok(image) ==> image.wf(),
{
    let pictures: Vec<Picture> = match pictures {
        Some(pictures) => pictures,
        None => {
            return Err(DecodeError::Tim2Parse);
        },
    };
    if pictures.len() != depths.len() {
        return Err(DecodeError::Tim2Parse);
    }
    let mut frames: Vec<Frame> = Vec::new();
    assert(frame_views(frames@) =~= Seq::empty());
    let mut i: usize = 0;
    while i < pictures.len()
        invariant
            i <= pictures@.len(),
            pictures@.len() == depths@.len(),
            crate::image::all_wf(frames@),
            tim2_frames(picture_views(pictures@), depths@, i as int, frame_views(frames@))
                == tim2_frames(picture_views(pictures@), depths@, 0, Seq::empty()),
        decreases pictures@.len() - i,
    {
        match frame_from_picture(&pictures[i], depths[i]) {
            None => {},
            Some(Err(e)) => {
                return Err(e);
            },
            Some(Ok(frame)) => {
                let ghost before = frames@;
                frames.push(frame);
                proof {
                    assert(frame_views(frames@) =~= frame_views(before).push(
                        frames@[before.len() as int]@,
                    ));
                }
            },
        }
        i += 1;
    }
    if frames.len() == 0 {
        Err(DecodeError::Tim2NoFrames)
    } else {
        Ok(Image { frames })
    }
}

/// Decodes a file.
pub fn decode(b: &[u8]) -> (r: Result<Image, DecodeError>)
    ensures
        image_outcome(r) == tim2_decoded(b@),
        r matches Ok(image) ==> image.wf(),
{
    match check(b) {
        None => Err(DecodeError::Tim2Layout),
        Some(depths) => image_from_pictures(tim2_read(b), depths.as_slice()),
    }
}

} // verus!
