use crate::byte_slice::fits;
use crate::error::DecodeError;
use crate::image::{
    decoded_pixels,
    frame_views,
    image_outcome,
    Frame,
    FrameView,
    Image,
    ImageView,
    PixelFormat,
};
use crate::outside::{image_load, image_loaded, Picture, PictureKind, PictureView};
use vstd::prelude::*;

verus! {

/// The eight bytes that a PNG file starts with.
pub open spec fn png_magic() -> Seq<u8> {
    seq![0x89u8, 0x50u8, 0x4Eu8, 0x47u8, 0x0Du8, 0x0Au8, 0x1Au8, 0x0Au8]
}

/// The three bytes that a JPEG file starts with.
pub open spec fn jpeg_magic() -> Seq<u8> {
    seq![0xFFu8, 0xD8u8, 0xFFu8]
}

/// The two bytes `BM` that a BMP file starts with.
pub open spec fn bmp_magic() -> Seq<u8> {
    seq![0x42u8, 0x4Du8]
}

/// The six bytes `GIF89a`.
pub open spec fn gif89_magic() -> Seq<u8> {
    seq![0x47u8, 0x49u8, 0x46u8, 0x38u8, 0x39u8, 0x61u8]
}

/// The six bytes `GIF87a`.
pub open spec fn gif87_magic() -> Seq<u8> {
    seq![0x47u8, 0x49u8, 0x46u8, 0x38u8, 0x37u8, 0x61u8]
}

/// The image that a loaded picture makes: one frame of its pixels. A picture whose
/// buffer is too short for its size makes none.
pub open spec fn picture_image(picture: Option<PictureView>) -> Result<ImageView, DecodeError> {
    match picture {
        None => Err(DecodeError::CommonImage),
        Some(p) => if p.width * p.height * 4 > p.rgba.len() {
            Err(DecodeError::PixelData)
        } else {
            Ok(
                ImageView {
                    frames: seq![
                        FrameView {
                            width: p.width,
                            height: p.height,
                            og_fmt: PixelFormat::Rgba,
                            pixels: decoded_pixels(
                                PixelFormat::Rgba,
                                p.width as int,
                                p.height as int,
                                Seq::empty(),
                                p.rgba,
                            ),
                        },
                    ],
                },
            )
        },
    }
}

/// Makes the image of a loaded picture.
pub fn image_from_picture(picture: Option<Picture>) -> (r: Result<Image, DecodeError>)
    ensures
        image_outcome(r) == picture_image(crate::outside::picture_outcome(picture)),
        r matches Ok(image) ==> image.wf(),
{
    let picture: Picture = match picture {
        Some(picture) => picture,
        None => {
            return Err(DecodeError::CommonImage);
        },
    };
    let none: Vec<u8> = Vec::new();
    let total: usize = picture.rgba.len();
    let frame: Frame = match Frame::try_new(
        PixelFormat::Rgba,
        picture.width,
        picture.height,
        none.as_slice(),
        picture.rgba.as_slice(),
    ) {
        Some(frame) => frame,
        None => {
            return Err(DecodeError::PixelData);
        },
    };
    let mut frames: Vec<Frame> = Vec::new();
    frames.push(frame);
    assert(frame_views(frames@) =~= seq![frames@[0]@]);
    Ok(Image { frames })
}

/// Decodes a PNG, JPEG, BMP or GIF file, read as the kind that its signature has told.
pub fn decode(bytes: &[u8], kind: PictureKind) -> (r: Result<Image, DecodeError>)
    ensures
        image_outcome(r) == picture_image(image_loaded(bytes@, kind)),
        r matches Ok(image) ==> image.wf(),
{
    image_from_picture(image_load(bytes, kind))
}

} // verus!
