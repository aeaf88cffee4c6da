use kidfile::error::{DecodeError, PvrPart};
use kidfile::image::{Frame, Pixel, PixelFormat};
use kidfile::image_formats::gim::GimBlock;
use kidfile::image_formats::{bip, common_image, gim, klz, ogdt, prt, pvr, tim, tim2};

fn px(r: u8, g: u8, b: u8, a: u8) -> Pixel {
    Pixel { r, g, b, a }
}

fn put(buf: &mut Vec<u8>, at: usize, bytes: &[u8]) {
    if buf.len() < at + bytes.len() {
        buf.resize(at + bytes.len(), 0);
    }
    buf[at..at + bytes.len()].copy_from_slice(bytes);
}

fn canonical(frame: &Frame) {
    assert_eq!(frame.pixels.len(), (frame.width * frame.height) as usize);
    assert_eq!(frame.as_rgba_bytes().len(), (frame.width * frame.height * 4) as usize);
}

fn ogdt_file(format: u32, tile_w: u16, tile_h: u16, cols: u8, rows: u8, rest: &[u8]) -> Vec<u8> {
    let mut v: Vec<u8> = Vec::new();
    put(&mut v, 0, b"ogdt");
    put(&mut v, 4, &format.to_le_bytes());
    put(&mut v, 8, &tile_w.to_le_bytes());
    put(&mut v, 10, &tile_h.to_le_bytes());
    put(&mut v, 12, &[cols]);
    put(&mut v, 14, &[rows]);
    put(&mut v, 32, rest);
    v
}

#[test]
fn ogdt_tiles_fill_the_image_row_by_row() {
    let tiles: Vec<u8> = vec![10, 20, 30, 0x40, 1, 2, 3, 0x80, 4, 5, 6, 0x00, 7, 8, 9, 0xFF];
    let image = ogdt::decode(&ogdt_file(0, 1, 1, 2, 2, &tiles)).unwrap();
    assert_eq!(image.frames.len(), 1);
    let f = &image.frames[0];
    assert_eq!((f.width, f.height, f.og_fmt), (2, 2, PixelFormat::Rgba));
    assert_eq!(
        f.pixels,
        vec![px(10, 20, 30, 0x7F), px(1, 2, 3, 0xFF), px(4, 5, 6, 0), px(7, 8, 9, 0xFF)]
    );
    canonical(f);
}

#[test]
fn ogdt_tile_of_two_rows() {
    // two tiles of 1 by 2 pixels side by side
    let tiles: Vec<u8> = vec![1, 0, 0, 0, 2, 0, 0, 0, 3, 0, 0, 0, 4, 0, 0, 0];
    let image = ogdt::decode(&ogdt_file(0, 1, 2, 2, 1, &tiles)).unwrap();
    let reds: Vec<u8> = image.frames[0].pixels.iter().map(|p| p.r).collect();
    assert_eq!(reds, vec![1, 3, 2, 4]);
}

#[test]
fn ogdt_format_one_is_24_bits_where_the_file_is_long_enough() {
    let rgb = ogdt::decode(&ogdt_file(1, 2, 1, 1, 1, &[1, 2, 3, 4, 5, 6])).unwrap();
    assert_eq!(rgb.frames[0].og_fmt, PixelFormat::Rgb);
    assert_eq!(rgb.frames[0].pixels, vec![px(1, 2, 3, 255), px(4, 5, 6, 255)]);
    let packed = ogdt::decode(&ogdt_file(1, 2, 1, 1, 1, &[0x1F, 0x00, 0x00, 0x80])).unwrap();
    assert_eq!(packed.frames[0].og_fmt, PixelFormat::Rgba16);
    assert_eq!(packed.frames[0].pixels, vec![px(255, 0, 0, 0), px(0, 0, 0, 255)]);
}

#[test]
fn ogdt_palettes_follow_the_pixels() {
    // eight-bit indices: the palette starts 48 bytes after the header, and is shuffled
    let mut v = ogdt_file(0x13, 2, 1, 1, 1, &[9, 16]);
    let mut clut: Vec<u8> = Vec::new();
    for i in 0..32u8 {
        clut.extend_from_slice(&[i, i, i, 0x40]);
    }
    put(&mut v, 48 + 2, &clut);
    let image = ogdt::decode(&v).unwrap();
    assert_eq!(image.frames[0].og_fmt, PixelFormat::RgbaClut8);
    assert_eq!(image.frames[0].pixels, vec![px(17, 17, 17, 0x7F), px(8, 8, 8, 0x7F)]);
    // four-bit indices: the palette is taken as it is
    let mut w = ogdt_file(0x14, 2, 1, 1, 1, &[0x10]);
    put(&mut w, 48 + 1, &[1, 2, 3, 0x80, 4, 5, 6, 0x00]);
    let image = ogdt::decode(&w).unwrap();
    assert_eq!(image.frames[0].og_fmt, PixelFormat::RgbaClut4);
    assert_eq!(image.frames[0].pixels, vec![px(1, 2, 3, 0xFF), px(4, 5, 6, 0)]);
}

#[test]
fn ogdt_failures() {
    assert_eq!(ogdt::decode(b"ogdt\0\0\0\0\x01"), Err(DecodeError::OgdtWidth));
    assert_eq!(ogdt::decode(b"ogdt\0\0\0\0\x01\0\x01"), Err(DecodeError::OgdtHeight));
    assert_eq!(ogdt::decode(b"ogdt\0\0\0\0\x01\0\x01\0"), Err(DecodeError::OgdtColumns));
    assert_eq!(ogdt::decode(b"ogdt\0\0\0\0\x01\0\x01\0\x01\0"), Err(DecodeError::OgdtRows));
    let unknown = ogdt::decode(&ogdt_file(0x2A, 1, 1, 1, 1, &[0; 4]));
    assert_eq!(unknown, Err(DecodeError::OgdtFormat { id: 0x2A }));
    assert_eq!(unknown.unwrap_err().message(), "unknown format id 0x2A");
    assert_eq!(ogdt::decode(&ogdt_file(0, 1, 1, 1, 1, &[0; 3])), Err(DecodeError::OgdtPixels));
    assert_eq!(ogdt::decode(&ogdt_file(0x13, 1, 1, 1, 1, &[0; 4])), Err(DecodeError::OgdtClut8));
    assert_eq!(ogdt::decode(&ogdt_file(0x14, 9, 9, 1, 1, &[0; 4])), Err(DecodeError::OgdtClut4));
    let mut missing = ogdt_file(0x13, 1, 1, 1, 1, &[200]);
    put(&mut missing, 49, &[0u8; 128]);
    assert_eq!(ogdt::decode(&missing), Err(DecodeError::PixelData));
    assert_eq!(DecodeError::OgdtPixels.message(), "could not read pixels");
    let none = ogdt::decode(&ogdt_file(0, 4, 4, 0, 3, &[])).unwrap();
    assert_eq!((none.frames[0].width, none.frames[0].height), (0, 12));
    canonical(&none.frames[0]);
}

fn prt_header(version: u16, bpp: u16, palette: u16, pixels: u16, w: u16, h: u16, alpha: u32) -> Vec<u8> {
    let mut v: Vec<u8> = Vec::new();
    put(&mut v, 0, b"PRT\0");
    put(&mut v, 4, &version.to_le_bytes());
    put(&mut v, 6, &bpp.to_le_bytes());
    put(&mut v, 8, &palette.to_le_bytes());
    put(&mut v, 10, &pixels.to_le_bytes());
    put(&mut v, 12, &w.to_le_bytes());
    put(&mut v, 14, &h.to_le_bytes());
    put(&mut v, 16, &alpha.to_le_bytes());
    v
}

#[test]
fn prt_rows_are_stored_from_the_bottom_up() {
    let mut v = prt_header(101, 24, 0, 20, 2, 2, 0);
    // the bottom row first; a row of 6 bytes is padded to 8
    put(&mut v, 20, &[1, 2, 3, 4, 5, 6, 0, 0]);
    put(&mut v, 28, &[7, 8, 9, 10, 11, 12, 0, 0]);
    let image = prt::decode(&v).unwrap();
    let f = &image.frames[0];
    assert_eq!((f.width, f.height, f.og_fmt), (2, 2, PixelFormat::Bgra));
    assert_eq!(
        f.pixels,
        vec![px(9, 8, 7, 255), px(12, 11, 10, 255), px(3, 2, 1, 255), px(6, 5, 4, 255)]
    );
    canonical(f);
}

#[test]
fn prt_alpha_plane_follows_the_rows() {
    let mut v = prt_header(101, 24, 0, 20, 1, 2, 1);
    put(&mut v, 20, &[1, 2, 3, 0]);
    put(&mut v, 24, &[4, 5, 6, 0]);
    put(&mut v, 28, &[0x11, 0x22]);
    let image = prt::decode(&v).unwrap();
    assert_eq!(image.frames[0].pixels, vec![px(6, 5, 4, 0x11), px(3, 2, 1, 0x22)]);
}

#[test]
fn prt_with_a_palette_and_a_wrapper_of_16_bytes() {
    let mut inner = prt_header(102, 8, 40, 48, 0, 0, 0);
    put(&mut inner, 28, &3u32.to_le_bytes());
    put(&mut inner, 32, &2u32.to_le_bytes());
    put(&mut inner, 40, &[1, 2, 3, 0, 4, 5, 6, 0]);
    put(&mut inner, 48, &[0, 1, 0, 0xFF]);
    put(&mut inner, 52, &[1, 1, 0, 0xFF]);
    let expected =
        vec![px(6, 5, 4, 255), px(6, 5, 4, 255), px(3, 2, 1, 255), px(3, 2, 1, 255), px(6, 5, 4, 255), px(3, 2, 1, 255)];
    let image = prt::decode(&inner).unwrap();
    assert_eq!(image.frames[0].og_fmt, PixelFormat::BgrxClut8);
    assert_eq!((image.frames[0].width, image.frames[0].height), (3, 2));
    assert_eq!(image.frames[0].pixels, expected);
    let mut wrapped = vec![0xABu8; 16];
    wrapped.extend_from_slice(&inner);
    assert_eq!(prt::decode(&wrapped).unwrap().frames[0].pixels, expected);
}

#[test]
fn prt_failures() {
    let version = prt::decode(&prt_header(100, 24, 0, 20, 1, 1, 0));
    assert_eq!(version, Err(DecodeError::PrtVersion { version: 100 }));
    assert_eq!(version.unwrap_err().message(), "unsupported prt version 100");
    let bpp = prt::decode(&prt_header(101, 16, 0, 20, 1, 1, 0));
    assert_eq!(bpp, Err(DecodeError::PrtBpp { bpp: 16 }));
    assert_eq!(bpp.unwrap_err().message(), "unexpected bpp of 16");
    assert_eq!(prt::decode(b"PRT\0\x65"), Err(DecodeError::ReadField));
    assert_eq!(prt::decode(b"xy"), Err(DecodeError::ReadField));
    assert_eq!(prt::decode(&prt_header(101, 24, 0, 20, 1, 1, 0)), Err(DecodeError::PixelData));
    assert_eq!(prt::decode(&prt_header(101, 8, 0, 20, 1, 1, 0)), Err(DecodeError::PixelData));
    assert_eq!(prt::decode(&prt_header(102, 24, 0, 20, 1, 1, 0)), Err(DecodeError::ReadField));
}

fn tim_file(tag: u32) -> Vec<u8> {
    let mut v: Vec<u8> = vec![16, 0, 0, 0];
    v.extend_from_slice(&tag.to_le_bytes());
    v
}

#[test]
fn tim_header_tells_the_kind() {
    assert_eq!(tim::decode_header(&tim_file(8)), Some(tim::TimFormat::Clut4));
    assert_eq!(tim::decode_header(&tim_file(9)), Some(tim::TimFormat::Clut8));
    assert_eq!(tim::decode_header(&tim_file(2)), Some(tim::TimFormat::Psx16));
    assert_eq!(tim::decode_header(&tim_file(3)), Some(tim::TimFormat::Rgb24));
    for tag in [0u32, 1, 10, 11, 0x13, 0x108] {
        assert_eq!(tim::decode_header(&tim_file(tag)), None);
    }
    assert_eq!(tim::decode_header(&[16, 0, 0, 0, 8]), None);
    assert_eq!(tim::decode_header(&[17, 0, 0, 0, 8, 0, 0, 0]), None);
}

#[test]
fn tim_colors_of_15_bits() {
    assert_eq!(tim::psx_to_rgba(0x0000), px(0, 0, 0, 0));
    assert_eq!(tim::psx_to_rgba(0x001F), px(0xFF, 0, 0, 255));
    assert_eq!(tim::psx_to_rgba(0x03E0), px(0, 0xFF, 0, 255));
    assert_eq!(tim::psx_to_rgba(0x7C00), px(0, 0, 0xFF, 255));
    assert_eq!(tim::psx_to_rgba(0x0010), px(0x80, 0, 0, 255));
    assert_eq!(tim::psx_to_rgba(0x8000), px(0, 0, 0, 255));
    assert_eq!(tim::psx_to_rgba(0x0001), px(0x09, 0, 0, 255));
}

#[test]
fn tim_with_a_palette_of_16_colors() {
    let mut v = tim_file(8);
    put(&mut v, 20 + 2, &0x001Fu16.to_le_bytes());
    put(&mut v, 20 + 4, &0x7C00u16.to_le_bytes());
    put(&mut v, 60, &1u16.to_le_bytes());
    put(&mut v, 62, &1u16.to_le_bytes());
    put(&mut v, 64, &[0x21, 0x00]);
    let image = tim::decode(&v).unwrap();
    let f = &image.frames[0];
    assert_eq!((f.width, f.height, f.og_fmt), (4, 1, PixelFormat::PsxClut4));
    assert_eq!(f.pixels, vec![px(255, 0, 0, 255), px(0, 0, 255, 255), px(0, 0, 0, 0), px(0, 0, 0, 0)]);
    canonical(f);
}

#[test]
fn tim_with_a_palette_of_256_colors() {
    let mut v = tim_file(9);
    put(&mut v, 20 + 2 * 200, &0x03E0u16.to_le_bytes());
    put(&mut v, 540, &1u16.to_le_bytes());
    put(&mut v, 542, &2u16.to_le_bytes());
    put(&mut v, 544, &[200, 0, 0, 200]);
    let image = tim::decode(&v).unwrap();
    let f = &image.frames[0];
    assert_eq!((f.width, f.height, f.og_fmt), (2, 2, PixelFormat::PsxClut8));
    assert_eq!(f.pixels, vec![px(0, 255, 0, 255), px(0, 0, 0, 0), px(0, 0, 0, 0), px(0, 255, 0, 255)]);
}

#[test]
fn tim_of_three_bytes_a_pixel() {
    let mut v = tim_file(3);
    put(&mut v, 16, &6u16.to_le_bytes());
    put(&mut v, 18, &1u16.to_le_bytes());
    put(&mut v, 20, &[1, 2, 3, 4, 5, 6]);
    let image = tim::decode(&v).unwrap();
    assert_eq!((image.frames[0].width, image.frames[0].height), (2, 1));
    assert_eq!(image.frames[0].pixels, vec![px(1, 2, 3, 255), px(4, 5, 6, 255)]);
    assert_eq!(image.frames[0].og_fmt, PixelFormat::Rgb);
}

#[test]
fn tim_failures() {
    assert_eq!(tim::decode(&tim_file(0)), Err(DecodeError::TimHeader));
    let psx = tim::decode(&tim_file(2));
    assert_eq!(psx, Err(DecodeError::TimUnsupported));
    assert_eq!(psx.unwrap_err().message(), "Psx16 pixels are not supported");
    assert_eq!(tim::decode(&tim_file(8)), Err(DecodeError::PixelData));
    let mut cut = tim_file(8);
    cut.resize(62, 0);
    assert_eq!(tim::decode(&cut), Err(DecodeError::ReadField));
    let mut few = tim_file(3);
    put(&mut few, 16, &6u16.to_le_bytes());
    put(&mut few, 18, &1u16.to_le_bytes());
    put(&mut few, 20, &[1, 2, 3, 4, 5]);
    let got = tim::decode(&few);
    assert_eq!(got, Err(DecodeError::TimPixels));
    assert_eq!(got.unwrap_err().message(), "not enough pixels");
    let mut half = tim_file(8);
    put(&mut half, 60, &1u16.to_le_bytes());
    put(&mut half, 62, &1u16.to_le_bytes());
    put(&mut half, 64, &[0x21]);
    assert_eq!(tim::decode(&half), Err(DecodeError::PixelData));
}

fn gim_image_block(format: u16, swizzled: u16, w: u16, h: u16, alignment: u16, pixels: &[u8]) -> Vec<u8> {
    let mut v: Vec<u8> = Vec::new();
    put(&mut v, 0, b"MIG.00.1PSP\0");
    let total = 16 + 16 + 32 + pixels.len();
    put(&mut v, 16, &4u16.to_le_bytes());
    put(&mut v, 20, &((total - 16) as u32).to_le_bytes());
    put(&mut v, 24, &((total - 16) as u32).to_le_bytes());
    put(&mut v, 28, &16u32.to_le_bytes());
    put(&mut v, 32 + 4, &format.to_le_bytes());
    put(&mut v, 32 + 6, &swizzled.to_le_bytes());
    put(&mut v, 32 + 8, &w.to_le_bytes());
    put(&mut v, 32 + 10, &h.to_le_bytes());
    put(&mut v, 32 + 14, &alignment.to_le_bytes());
    put(&mut v, 32 + 28, &32u32.to_le_bytes());
    put(&mut v, 64, pixels);
    v
}

#[test]
fn gim_block_header() {
    let v = gim_image_block(3, 0, 1, 1, 16, &[0; 16]);
    assert_eq!(
        GimBlock::parse(&v, 16),
        Ok(GimBlock { next: 80, next_skipping_children: 80, id: 4, data_start: 32 })
    );
    assert_eq!(GimBlock::parse(&v, v.len() - 15), Err(DecodeError::ReadField));
    assert_eq!(GimBlock::parse(&v, usize::MAX), Err(DecodeError::ReadField));
}

#[test]
fn gim_rows_are_cut_to_the_width_of_the_image() {
    // rows of 2 pixels stored in rows of 4
    let mut pixels: Vec<u8> = Vec::new();
    for i in 0..8u8 {
        pixels.extend_from_slice(&[i, 0, 0, 255]);
    }
    let image = gim::decode(&gim_image_block(3, 0, 2, 2, 16, &pixels)).unwrap();
    let f = &image.frames[0];
    assert_eq!((f.width, f.height, f.og_fmt), (2, 2, PixelFormat::Rgba));
    assert_eq!(f.pixels.iter().map(|p| p.r).collect::<Vec<u8>>(), vec![0, 1, 4, 5]);
    canonical(f);
}

#[test]
fn gim_swizzled_pixels() {
    // 4 pixels of 32 bits in a row of 16 bytes, 8 rows: one block of 16 by 8 bytes
    let mut pixels: Vec<u8> = Vec::new();
    for i in 0..32u8 {
        pixels.extend_from_slice(&[i, 0, 0, 255]);
    }
    let plain = gim::decode(&gim_image_block(3, 0, 4, 8, 16, &pixels)).unwrap();
    let swizzled = gim::decode(&gim_image_block(3, 1, 4, 8, 16, &pixels)).unwrap();
    assert_eq!(plain.frames[0].pixels, swizzled.frames[0].pixels);
    // 8 pixels in a row of 32 bytes: two blocks side by side
    let mut wide: Vec<u8> = Vec::new();
    for i in 0..64u8 {
        wide.extend_from_slice(&[i, 0, 0, 255]);
    }
    let image = gim::decode(&gim_image_block(3, 1, 8, 8, 16, &wide)).unwrap();
    let reds: Vec<u8> = image.frames[0].pixels.iter().map(|p| p.r).collect();
    assert_eq!(&reds[0..8], &[0, 1, 2, 3, 32, 33, 34, 35]);
    assert_eq!(&reds[8..16], &[4, 5, 6, 7, 36, 37, 38, 39]);
}

#[test]
fn gim_palette_of_a_picture_block() {
    let mut v: Vec<u8> = Vec::new();
    put(&mut v, 0, b"MIG.00.1PSP\0");
    // a picture block at 16 whose children are a palette block at 32 and an image block
    let palette_block = 32usize;
    let palette_data = palette_block + 16;
    let palette = palette_data + 32;
    let image_block = palette + 1024;
    let image_data = image_block + 16;
    let pixels = image_data + 32;
    let end = pixels + 16;
    put(&mut v, 16, &3u16.to_le_bytes());
    put(&mut v, 20, &((end - 16) as u32).to_le_bytes());
    put(&mut v, 24, &16u32.to_le_bytes());
    put(&mut v, 28, &16u32.to_le_bytes());
    put(&mut v, palette_block, &5u16.to_le_bytes());
    put(&mut v, palette_block + 4, &((image_block - palette_block) as u32).to_le_bytes());
    put(&mut v, palette_block + 8, &((image_block - palette_block) as u32).to_le_bytes());
    put(&mut v, palette_block + 12, &16u32.to_le_bytes());
    put(&mut v, palette_data + 28, &32u32.to_le_bytes());
    put(&mut v, palette + 4 * 7, &[70, 71, 72, 73]);
    put(&mut v, image_block, &4u16.to_le_bytes());
    put(&mut v, image_block + 4, &((end - image_block) as u32).to_le_bytes());
    put(&mut v, image_block + 8, &((end - image_block) as u32).to_le_bytes());
    put(&mut v, image_block + 12, &16u32.to_le_bytes());
    put(&mut v, image_data + 4, &5u16.to_le_bytes());
    put(&mut v, image_data + 8, &2u16.to_le_bytes());
    put(&mut v, image_data + 10, &1u16.to_le_bytes());
    put(&mut v, image_data + 14, &16u16.to_le_bytes());
    put(&mut v, image_data + 28, &32u32.to_le_bytes());
    put(&mut v, pixels, &[7, 0, 0, 0, 0, 0, 0, 0, 0, 0, 0, 0, 0, 0, 0, 0]);
    let image = gim::decode(&v).unwrap();
    assert_eq!(image.frames.len(), 1);
    assert_eq!(image.frames[0].og_fmt, PixelFormat::RgbaClut8);
    assert_eq!(image.frames[0].pixels, vec![px(70, 71, 72, 73), px(0, 0, 0, 0)]);
}

#[test]
fn gim_palette_that_lies_beyond_the_file() {
    let mut v: Vec<u8> = Vec::new();
    put(&mut v, 0, b"MIG.00.1PSP\0");
    // a picture block at 16 whose only child is a palette block at 32
    put(&mut v, 16, &3u16.to_le_bytes());
    put(&mut v, 20, &64u32.to_le_bytes());
    put(&mut v, 24, &16u32.to_le_bytes());
    put(&mut v, 28, &16u32.to_le_bytes());
    put(&mut v, 32, &5u16.to_le_bytes());
    put(&mut v, 32 + 4, &48u32.to_le_bytes());
    put(&mut v, 32 + 8, &48u32.to_le_bytes());
    put(&mut v, 32 + 12, &16u32.to_le_bytes());
    put(&mut v, 48 + 28, &32u32.to_le_bytes());
    let got = gim::decode(&v);
    assert_eq!(got, Err(DecodeError::GimPalette));
    assert_eq!(got.unwrap_err().message(), "could not read palette");
}

#[test]
fn gim_failures() {
    let unknown = gim::decode(&gim_image_block(2, 0, 1, 1, 16, &[0; 16]));
    assert_eq!(unknown, Err(DecodeError::GimFormat { format: 2 }));
    assert_eq!(unknown.unwrap_err().message(), "unhandled pixel format 0x2");
    assert_eq!(gim::decode(&gim_image_block(3, 0, 1, 1, 3, &[0; 16])), Err(DecodeError::GimAlignment));
    assert_eq!(gim::decode(&gim_image_block(3, 0, 2, 2, 16, &[0; 31])), Err(DecodeError::PixelData));
    assert_eq!(gim::decode(&gim_image_block(5, 0, 1, 1, 16, &[0; 16])), Err(DecodeError::PixelData));
    let none = gim::decode(b"MIG.00.1PSP\0\0\0\0\0");
    assert_eq!(none, Err(DecodeError::GimNoFrames));
    assert_eq!(none.unwrap_err().message(), "no frames were decoded successfully");
    let mut stuck = gim_image_block(3, 0, 1, 1, 16, &[0; 16]);
    put(&mut stuck, 24, &0u32.to_le_bytes());
    assert_eq!(gim::decode(&stuck), Err(DecodeError::GimBlockSize));
    let mut cut = gim_image_block(3, 0, 1, 1, 16, &[0; 16]);
    cut.truncate(30);
    assert_eq!(gim::decode(&cut), Err(DecodeError::ReadField));
    let mut far = gim_image_block(3, 0, 1, 1, 16, &[0; 16]);
    put(&mut far, 32 + 28, &4000u32.to_le_bytes());
    assert_eq!(gim::decode(&far), Err(DecodeError::GimPixels));
}

fn pvr_chunk(tag: &[u8; 4], body: &[u8]) -> Vec<u8> {
    let mut v: Vec<u8> = tag.to_vec();
    v.extend_from_slice(&(body.len() as u32).to_le_bytes());
    v.extend_from_slice(body);
    v
}

fn pvrt(format: u8, twiddle: u8, w: u16, h: u16, data: &[u8]) -> Vec<u8> {
    let mut body: Vec<u8> = vec![format, twiddle, 0, 0];
    body.extend_from_slice(&w.to_le_bytes());
    body.extend_from_slice(&h.to_le_bytes());
    body.extend_from_slice(data);
    pvr_chunk(b"PVRT", &body)
}

#[test]
fn pvr_direct_pixels() {
    let image = pvr::decode(&pvrt(1, 9, 2, 1, &[0x1F, 0x00, 0x00, 0xF8])).unwrap();
    let f = &image.frames[0];
    assert_eq!((f.width, f.height, f.og_fmt), (2, 1, PixelFormat::Bgr16));
    assert_eq!(f.pixels, vec![px(0, 0, 255, 255), px(255, 0, 0, 255)]);
    let alpha = pvr::decode(&pvrt(0, 9, 1, 1, &[0x1F, 0x80])).unwrap();
    assert_eq!(alpha.frames[0].pixels, vec![px(0, 0, 255, 255)]);
    assert_eq!(alpha.frames[0].og_fmt, PixelFormat::Bgra16);
    let nibbles = pvr::decode(&pvrt(2, 9, 1, 1, &[0x21, 0x43])).unwrap();
    assert_eq!(nibbles.frames[0].pixels, vec![px(0x33, 0x22, 0x11, 0x44)]);
    assert_eq!(nibbles.frames[0].og_fmt, PixelFormat::Bgra4444);
    canonical(f);
}

#[test]
fn pvr_twiddled_pixels_are_put_in_rows() {
    // blue grows with the place in the file
    let data: Vec<u8> = vec![0x00, 0x00, 0x01, 0x00, 0x02, 0x00, 0x03, 0x00];
    let plain = pvr::decode(&pvrt(1, 9, 2, 2, &data)).unwrap();
    let twiddled = pvr::decode(&pvrt(1, 1, 2, 2, &data)).unwrap();
    let order = |f: &Frame| f.pixels.iter().map(|p| p.b).collect::<Vec<u8>>();
    let first = order(&plain.frames[0]);
    let second = order(&twiddled.frames[0]);
    assert_eq!(second, vec![first[0], first[2], first[1], first[3]]);
    for twiddle in [1u8, 2, 5, 6, 7, 8, 13] {
        let image = pvr::decode(&pvrt(1, twiddle, 2, 2, &data)).unwrap();
        assert_eq!(order(&image.frames[0]), second);
    }
    for twiddle in [0u8, 4, 9, 10, 11, 12, 14] {
        let image = pvr::decode(&pvrt(1, twiddle, 2, 2, &data)).unwrap();
        assert_eq!(order(&image.frames[0]), first);
    }
}

#[test]
fn pvr_vector_quantized() {
    let mut data: Vec<u8> = vec![0; 2048];
    // codebook entry 5: top left, bottom left, top right, bottom right
    put(&mut data, 5 * 8, &[0x01, 0x00, 0x02, 0x00, 0x03, 0x00, 0x04, 0x00]);
    put(&mut data, 7 * 8, &[0x05, 0x00, 0x06, 0x00, 0x07, 0x00, 0x08, 0x00]);
    data.extend_from_slice(&[5, 0, 7, 0]);
    let image = pvr::decode(&pvrt(1, 3, 4, 4, &data)).unwrap();
    let f = &image.frames[0];
    assert_eq!(f.og_fmt, PixelFormat::Bgr565Vq8);
    assert_eq!((f.width, f.height), (4, 4));
    // block (0,0) has index 0 in the twiddled order, block (1,0) has index 2
    let blue = |x: usize, y: usize| f.pixels[y * 4 + x].b;
    let widened = |v: u8| (v << 3) | if v & 1 == 1 { 7 } else { 0 };
    assert_eq!(blue(0, 0), widened(1));
    assert_eq!(blue(0, 1), widened(2));
    assert_eq!(blue(1, 0), widened(3));
    assert_eq!(blue(1, 1), widened(4));
    assert_eq!(blue(2, 0), widened(5));
    assert_eq!(blue(2, 1), widened(6));
    assert_eq!(blue(3, 0), widened(7));
    assert_eq!(blue(3, 1), widened(8));
    assert_eq!(blue(0, 2), 0);
    canonical(f);
}

#[test]
fn pvr_palettes() {
    let mut own: Vec<u8> = vec![0; 1024];
    put(&mut own, 4 * 3, &[1, 2, 3, 4]);
    own.extend_from_slice(&[3, 0]);
    let image = pvr::decode(&pvrt(6, 9, 2, 1, &own)).unwrap();
    assert_eq!(image.frames[0].og_fmt, PixelFormat::BgraClut8);
    assert_eq!(image.frames[0].pixels, vec![px(3, 2, 1, 4), px(0, 0, 0, 0)]);
    // a palette chunk: after sixteen bytes of header come the colors
    let mut first = vec![0u8; 8];
    first.extend_from_slice(&[9, 9, 9, 9, 10, 20, 30, 40]);
    let mut second = vec![0u8; 8];
    second.extend_from_slice(&[9, 9, 9, 9, 50, 60, 70, 80]);
    let mut file = pvr_chunk(b"GBIX", &[0u8; 8]);
    file.extend_from_slice(&pvr_chunk(b"PVPL", &first));
    file.extend_from_slice(&pvr_chunk(b"PVPL", &second));
    file.extend_from_slice(&pvrt(5, 9, 2, 1, &[0x01]));
    let image = pvr::decode(&file).unwrap();
    assert_eq!(image.frames.len(), 2);
    assert_eq!(image.frames[0].pixels[0], px(30, 20, 10, 40));
    assert_eq!(image.frames[1].pixels[0], px(70, 60, 50, 80));
    assert_eq!(image.frames[0].og_fmt, PixelFormat::BgraClut4);
    let chunks = pvr::walk(&file).unwrap();
    assert_eq!(chunks.palettes, vec![(16 + 16, 8), (16 + 24 + 16, 8)]);
    assert_eq!((chunks.tex_start, chunks.tex_len), (16 + 24 + 24, 9));
}

#[test]
fn pvr_failures() {
    assert_eq!(pvr::decode(b"GBIX\x08\0\0\0\0\0\0\0\0\0\0\0"), Err(DecodeError::PvrNoTexture));
    assert_eq!(DecodeError::PvrNoTexture.message(), "PVRT header not found in file");
    assert_eq!(pvr::decode(b"PVRT\x10\0\0\0\x01"), Err(DecodeError::PvrtLength));
    assert_eq!(pvr::decode(b"PVPL\x03\0\0\0abc"), Err(DecodeError::PvplLength));
    assert_eq!(pvr::decode(b"PVPL\x09\0\0\0abcdefgh"), Err(DecodeError::PvplLength));
    assert_eq!(pvr::decode(b"PVRT\x01\0\0"), Err(DecodeError::ReadField));
    assert_eq!(pvr::decode(&pvr_chunk(b"PVRT", &[1, 9, 0])), Err(DecodeError::ReadField));
    let short = pvr::decode(&pvrt(1, 9, 2, 1, &[0; 3]));
    assert_eq!(short, Err(DecodeError::PvrData { part: PvrPart::Pixels565 }));
    assert_eq!(short.unwrap_err().message(), "not enough pixel data for BGR565");
    assert_eq!(
        pvr::decode(&pvrt(0, 3, 2, 2, &[0; 2047])),
        Err(DecodeError::PvrData { part: PvrPart::VqCodebook })
    );
    assert_eq!(
        pvr::decode(&pvrt(2, 3, 4, 4, &[0; 2051])),
        Err(DecodeError::PvrData { part: PvrPart::VqIndices })
    );
    assert_eq!(
        pvr::decode(&pvrt(5, 9, 2, 1, &[0; 1023])),
        Err(DecodeError::PvrData { part: PvrPart::Palette4 })
    );
    assert_eq!(
        pvr::decode(&pvrt(6, 9, 2, 1, &[0; 1025])),
        Err(DecodeError::PvrData { part: PvrPart::Indices8 })
    );
    let mut with_palette = pvr_chunk(b"PVPL", &[0u8; 16]);
    with_palette.extend_from_slice(&pvrt(6, 9, 2, 1, &[0]));
    assert_eq!(pvr::decode(&with_palette), Err(DecodeError::PvrData { part: PvrPart::Data8 }));
    let external = pvr::decode(&pvrt(5, 7, 2, 1, &[0; 2000]));
    assert_eq!(external, Err(DecodeError::PvrExternalPalette));
    assert_eq!(external.unwrap_err().message(), "file needs external palette, unimplemented");
    let unknown = pvr::decode(&pvrt(4, 9, 2, 1, &[0; 16]));
    assert_eq!(unknown, Err(DecodeError::PvrFormat { pixel_format: 4 }));
    assert_eq!(unknown.unwrap_err().message(), "unhandled PVR pixel format 4");
    // a block index beyond the indices that are there
    assert_eq!(pvr::decode(&pvrt(1, 3, 8, 2, &[0; 2048 + 4])), Err(DecodeError::PixelData));
    assert_eq!(DecodeError::PvrData { part: PvrPart::VqCodebook }.message(), "not enough 16-bit VQ codebook data");
    assert_eq!(DecodeError::PvrData { part: PvrPart::Data4 }.message(), "not enough data for BGRA clut4");
}
