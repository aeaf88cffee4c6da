use vstd::prelude::*;

verus! {

/// A picture as a PNG decoder gives it out.
#[derive(Clone, Debug, PartialEq, Eq)]
pub struct PngPicture {
    /// The width of the decoded frame.
    pub width: u32,
    /// The height of the decoded frame.
    pub height: u32,
    /// The number of bytes of a decoded row.
    pub line_size: usize,
    /// The color type that the file declares: 0 gray, 2 RGB, 3 indexed, 4 gray with
    /// alpha, 6 RGB with alpha.
    pub color_type: u8,
    /// The number of bits of a sample that the file declares.
    pub bit_depth: u8,
    /// The decoded rows, in a buffer of the size that the decoder asked for.
    pub pixels: Vec<u8>,
}

/// A PNG picture, with a sequence for its bytes.
pub struct PngPictureView {
    pub width: u32,
    pub height: u32,
    pub line_size: usize,
    pub color_type: u8,
    pub bit_depth: u8,
    pub pixels: Seq<u8>,
}

impl View for PngPicture {
    type V = PngPictureView;

    open spec fn view(&self) -> PngPictureView {
        PngPictureView {
            width: self.width,
            height: self.height,
            line_size: self.line_size,
            color_type: self.color_type,
            bit_depth: self.bit_depth,
            pixels: self.pixels@,
        }
    }
}

/// Where the decoding of a PNG file failed.
#[derive(Clone, Copy, PartialEq, Eq, Structural, Debug)]
pub enum PngStage {
    /// Before the image data: in the header or the chunks that describe the image.
    Info,
    /// In the image data.
    Frame,
}

/// What the `png` crate decodes a file to, when asked for eight bits a sample
/// and an alpha channel.
pub uninterp spec fn png_decoded(bytes: Seq<u8>) -> Result<PngPictureView, PngStage>;

/// The view of a decoded picture or its failure.
pub open spec fn png_outcome(r: Result<PngPicture, PngStage>) -> Result<PngPictureView, PngStage> {
    match r {
        Ok(p) => Ok(p@),
        Err(e) => Err(e),
    }
}

/// Decodes the first frame of a PNG file with the `png` crate: `Decoder::new`,
/// `set_transformations` with `normalize_to_color8` and `ALPHA`, `read_info`, a buffer
/// of `output_buffer_size` bytes, and `next_frame`. Nothing is claimed of the picture
/// but that the same bytes always give the same picture or the same failure.
#[verifier::external_body]
pub(crate) fn png_decode(bytes: &[u8]) -> (r: Result<PngPicture, PngStage>)
    ensures
        png_outcome(r) == png_decoded(bytes@),
{
    let mut decoder = png::Decoder::new(bytes);
    let wanted = png::Transformations::normalize_to_color8().union(png::Transformations::ALPHA);
    decoder.set_transformations(wanted);
    let mut reader = decoder.read_info().map_err(|_| PngStage::Info)?;
    let mut pixels = vec![0u8; reader.output_buffer_size()];
    let info = reader.next_frame(&mut pixels).map_err(|_| PngStage::Frame)?;
    let (width, height, line_size) = (info.width, info.height, info.line_size);
    let color_type = reader.info().color_type as u8;
    let bit_depth = reader.info().bit_depth as u8;
    Ok(PngPicture { width, height, line_size, color_type, bit_depth, pixels })
}

/// What the `zune-inflate` crate inflates a zlib stream to, given a limit on the
/// size of the output; `None` where it fails.
pub uninterp spec fn zlib_inflated(bytes: Seq<u8>, limit: usize) -> Option<Seq<u8>>;

/// The view of inflated bytes.
pub open spec fn inflate_outcome(r: Option<Vec<u8>>) -> Option<Seq<u8>> {
    match r {
        Some(v) => Some(v@),
        None => None,
    }
}

/// Inflates a zlib stream with `DeflateDecoder::decode_zlib` of the `zune-inflate`
/// crate, with `limit` as both the output limit and the size hint. Nothing is claimed
/// of the output but that the same input always gives the same output or failure.
#[verifier::external_body]
pub(crate) fn zlib_inflate(bytes: &[u8], limit: usize) -> (r: Option<Vec<u8>>)
    ensures
        inflate_outcome(r) == zlib_inflated(bytes@, limit),
{
    let options = zune_inflate::DeflateOptions::default().set_limit(limit).set_size_hint(limit);
    zune_inflate::DeflateDecoder::new_with_options(bytes, options).decode_zlib().ok()
}

/// A picture as a decoder of common image files gives it out: its size and its pixels,
/// four bytes each.
#[derive(Clone, Debug, PartialEq, Eq)]
pub struct Picture {
    pub width: u32,
    pub height: u32,
    pub rgba: Vec<u8>,
}

/// A picture, with a sequence for its bytes.
pub struct PictureView {
    pub width: u32,
    pub height: u32,
    pub rgba: Seq<u8>,
}

impl View for Picture {
    type V = PictureView;

    open spec fn view(&self) -> PictureView {
        PictureView { width: self.width, height: self.height, rgba: self.rgba@ }
    }
}

/// The view of a loaded picture.
pub open spec fn picture_outcome(r: Option<Picture>) -> Option<PictureView> {
    match r {
        Some(p) => Some(p@),
        None => None,
    }
}

/// The kinds of common image files that are loaded.
#[derive(Clone, Copy, PartialEq, Eq, Structural, Debug)]
pub enum PictureKind {
    Png,
    Jpeg,
    Bmp,
    Gif,
}

/// What the `image` crate loads a file of the given kind as; `None` where it fails.
pub uninterp spec fn image_loaded(bytes: Seq<u8>, kind: PictureKind) -> Option<PictureView>;

/// Loads a picture with `load_from_memory_with_format` of the `image` crate, as the
/// built-in format that stands for `kind`, and converts it with `to_rgba8`. The format
/// is given and not guessed, so that no hook that a process may have registered for
/// guessing or decoding is asked. Nothing is claimed of the picture but that the same
/// bytes, read as the same kind, always give the same picture or failure.
#[verifier::external_body]
pub(crate) fn image_load(bytes: &[u8], kind: PictureKind) -> (r: Option<Picture>)
    ensures
        picture_outcome(r) == image_loaded(bytes@, kind),
{
    let format = match kind {
        PictureKind::Png => image::ImageFormat::Png,
        PictureKind::Jpeg => image::ImageFormat::Jpeg,
        PictureKind::Bmp => image::ImageFormat::Bmp,
        PictureKind::Gif => image::ImageFormat::Gif,
    };
    let loaded = image::load_from_memory_with_format(bytes, format).ok()?.to_rgba8();
    Some(Picture { width: loaded.width(), height: loaded.height(), rgba: loaded.into_raw() })
}

} // verus!
