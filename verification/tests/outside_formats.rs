use kidfile::error::DecodeError;
use kidfile::image::{Frame, Pixel, PixelFormat};
use kidfile::image_formats::{bip, common_image, klz, tim2};
use kidfile::outside::PictureKind;

fn px(r: u8, g: u8, b: u8, a: u8) -> Pixel {
    Pixel { r, g, b, a }
}

fn put(buf: &mut Vec<u8>, at: usize, bytes: &[u8]) {
    if buf.len() < at + bytes.len() {
        buf.resize(at + bytes.len(), 0);
    }
    buf[at..at + bytes.len()].copy_from_slice(bytes);
}

fn canonical(frame: &Frame) {
    assert_eq!(frame.pixels.len(), (frame.width * frame.height) as usize);
    assert_eq!(frame.as_rgba_bytes().len(), (frame.width * frame.height * 4) as usize);
}

fn png_file(width: u32, height: u32, color: png::ColorType, data: &[u8]) -> Vec<u8> {
    let mut out: Vec<u8> = Vec::new();
    {
        let mut encoder = png::Encoder::new(&mut out, width, height);
        encoder.set_color(color);
        encoder.set_depth(png::BitDepth::Eight);
        let mut writer = encoder.write_header().unwrap();
        writer.write_image_data(data).unwrap();
    }
    out
}

fn adler32(data: &[u8]) -> u32 {
    let mut a: u32 = 1;
    let mut b: u32 = 0;
    for byte in data {
        a = (a + *byte as u32) % 65521;
        b = (b + a) % 65521;
    }
    (b << 16) | a
}

fn zlib_stored(data: &[u8]) -> Vec<u8> {
    let mut v: Vec<u8> = vec![0x78, 0x01, 0x01];
    v.extend_from_slice(&(data.len() as u16).to_le_bytes());
    v.extend_from_slice(&(!(data.len() as u16)).to_le_bytes());
    v.extend_from_slice(data);
    v.extend_from_slice(&adler32(data).to_be_bytes());
    v
}

fn klz_entry(subformat: &[u8; 4], payload: &[u8]) -> Vec<u8> {
    let mut v: Vec<u8> = Vec::new();
    put(&mut v, 0, b"TIM2");
    put(&mut v, 0x40, b"PNGFILE3");
    put(&mut v, 164, subformat);
    put(&mut v, 188, payload);
    let size = v.len() as u32;
    put(&mut v, 16, &(size - 16).to_le_bytes());
    v
}

#[test]
fn common_image_is_loaded_as_one_frame() {
    let file = png_file(2, 1, png::ColorType::Rgba, &[1, 2, 3, 4, 5, 6, 7, 8]);
    let image = common_image::decode(&file, PictureKind::Png).unwrap();
    assert_eq!(image.frames.len(), 1);
    let f = &image.frames[0];
    assert_eq!((f.width, f.height, f.og_fmt), (2, 1, PixelFormat::Rgba));
    assert_eq!(f.pixels, vec![px(1, 2, 3, 4), px(5, 6, 7, 8)]);
    canonical(f);
    let gray = png_file(1, 2, png::ColorType::Grayscale, &[10, 200]);
    let image = common_image::decode(&gray, PictureKind::Png).unwrap();
    assert_eq!(image.frames[0].pixels, vec![px(10, 10, 10, 255), px(200, 200, 200, 255)]);
}

/// A BMP file of one row of 24-bit pixels, given as blue, green, red.
fn bmp_file(pixels: &[[u8; 3]]) -> Vec<u8> {
    let row = (pixels.len() * 3 + 3) / 4 * 4;
    let mut v: Vec<u8> = Vec::new();
    put(&mut v, 0, b"BM");
    put(&mut v, 2, &((54 + row) as u32).to_le_bytes());
    put(&mut v, 10, &54u32.to_le_bytes());
    put(&mut v, 14, &40u32.to_le_bytes());
    put(&mut v, 18, &(pixels.len() as u32).to_le_bytes());
    put(&mut v, 22, &1u32.to_le_bytes());
    put(&mut v, 26, &1u16.to_le_bytes());
    put(&mut v, 28, &24u16.to_le_bytes());
    put(&mut v, 34, &(row as u32).to_le_bytes());
    put(&mut v, 54, &vec![0u8; row]);
    for (i, p) in pixels.iter().enumerate() {
        put(&mut v, 54 + i * 3, p);
    }
    v
}

#[test]
fn common_image_is_read_as_the_kind_that_is_given() {
    let file = bmp_file(&[[3, 2, 1], [6, 5, 4]]);
    let image = common_image::decode(&file, PictureKind::Bmp).unwrap();
    let f = &image.frames[0];
    assert_eq!((f.width, f.height, f.og_fmt), (2, 1, PixelFormat::Rgba));
    assert_eq!(f.pixels, vec![px(1, 2, 3, 255), px(4, 5, 6, 255)]);
    // the kind is not guessed from the bytes
    assert_eq!(common_image::decode(&file, PictureKind::Png), Err(DecodeError::CommonImage));
    assert_eq!(common_image::decode(&file, PictureKind::Jpeg), Err(DecodeError::CommonImage));
    assert_eq!(common_image::decode(&file, PictureKind::Gif), Err(DecodeError::CommonImage));
    let png = png_file(1, 1, png::ColorType::Rgba, &[9, 8, 7, 6]);
    assert_eq!(common_image::decode(&png, PictureKind::Bmp), Err(DecodeError::CommonImage));
    assert!(common_image::decode(&png, PictureKind::Png).is_ok());
}

#[test]
fn common_image_that_cannot_be_loaded() {
    let got = common_image::decode(b"\x89PNG\x0d\x0a\x1a\x0a not a picture", PictureKind::Png);
    assert_eq!(got, Err(DecodeError::CommonImage));
    assert_eq!(got.unwrap_err().message(), "could not load image");
    assert_eq!(common_image::decode(&[], PictureKind::Gif), Err(DecodeError::CommonImage));
    assert_eq!(common_image::image_from_picture(None), Err(DecodeError::CommonImage));
}

#[test]
fn picture_with_a_short_buffer_makes_no_image() {
    let short = kidfile::outside::Picture { width: 2, height: 2, rgba: vec![0; 15] };
    assert_eq!(common_image::image_from_picture(Some(short)), Err(DecodeError::PixelData));
    let exact = kidfile::outside::Picture { width: 1, height: 1, rgba: vec![9, 8, 7, 6] };
    let image = common_image::image_from_picture(Some(exact)).unwrap();
    assert_eq!(image.frames[0].pixels, vec![px(9, 8, 7, 6)]);
}

#[test]
fn klz_entry_with_a_png_picture() {
    let picture = png_file(2, 1, png::ColorType::Rgba, &[1, 2, 3, 4, 5, 6, 7, 0x80]);
    let mut file = klz_entry(b"GXT5", &picture);
    file.extend_from_slice(&klz_entry(b"GXT5", &picture));
    let image = klz::decode(&file).unwrap();
    assert_eq!(image.frames.len(), 2);
    for f in image.frames.iter() {
        assert_eq!((f.width, f.height, f.og_fmt), (2, 1, PixelFormat::Rgba));
        assert_eq!(f.pixels, vec![px(1, 2, 3, 4), px(5, 6, 7, 0x80)]);
        canonical(f);
    }
}

#[test]
fn klz_entry_with_red_and_blue_exchanged() {
    let picture = png_file(3, 1, png::ColorType::Rgba, &[1, 2, 3, 0x40, 5, 6, 7, 0x80, 9, 9, 9, 0x81]);
    let image = klz::decode(&klz_entry(b"\0\0\0\0", &picture)).unwrap();
    let f = &image.frames[0];
    assert_eq!(f.og_fmt, PixelFormat::Bgra);
    assert_eq!(f.pixels, vec![px(3, 2, 1, 0x80), px(7, 6, 5, 0x00), px(9, 9, 9, 0x03)]);
    let rgb = png_file(1, 1, png::ColorType::Rgb, &[1, 2, 3]);
    let image = klz::decode(&klz_entry(b"abcd", &rgb)).unwrap();
    assert_eq!(image.frames[0].og_fmt, PixelFormat::Bgr);
    assert_eq!(image.frames[0].pixels, vec![px(3, 2, 1, 0xFF)]);
}

#[test]
fn klz_entry_with_compressed_indices() {
    let indices: Vec<u8> = vec![9, 16, 0, 255];
    let mut payload = zlib_stored(&indices);
    let mut palette: Vec<u8> = Vec::new();
    for i in 0..=255u8 {
        palette.extend_from_slice(&[i, 0, 0, 0x40]);
    }
    payload.extend_from_slice(&palette);
    let mut file = klz_entry(b"FXT5", &payload);
    put(&mut file, 156, &4u32.to_le_bytes());
    put(&mut file, 180, &2u32.to_le_bytes());
    put(&mut file, 184, &2u32.to_le_bytes());
    let image = klz::decode(&file).unwrap();
    let f = &image.frames[0];
    assert_eq!((f.width, f.height, f.og_fmt), (2, 2, PixelFormat::RgbaClut8));
    assert_eq!(
        f.pixels,
        vec![px(17, 0, 0, 0x7F), px(8, 0, 0, 0x7F), px(0, 0, 0, 0x7F), px(255, 0, 0, 0x7F)]
    );
    canonical(f);
}

#[test]
fn klz_failures() {
    let none = klz::decode(&[]);
    assert_eq!(none, Err(DecodeError::KlzNoFrames));
    assert_eq!(none.unwrap_err().message(), "no frames in image");
    assert_eq!(klz::decode(&[0u8; 19]), Err(DecodeError::ReadField));
    let mut short = klz_entry(b"GXT5", &[0; 10]);
    put(&mut short, 16, &1000u32.to_le_bytes());
    let got = klz::decode(&short);
    assert_eq!(got, Err(DecodeError::KlzShort { declared: 1016, available: 198 }));
    assert_eq!(got.unwrap_err().message(), "expected 1016 bytes, had only 198");
    let mut tiny = vec![0u8; 100];
    put(&mut tiny, 16, &84u32.to_le_bytes());
    let got = klz::decode(&tiny);
    assert_eq!(got, Err(DecodeError::ReadRegion { name: "subformat name" }));
    assert_eq!(got.unwrap_err().message(), "error reading subformat name");
    let mut no_picture = vec![0u8; 170];
    put(&mut no_picture, 16, &154u32.to_le_bytes());
    assert_eq!(klz::decode(&no_picture), Err(DecodeError::KlzEntrySize));
    let broken = klz::decode(&klz_entry(b"GXT5", b"not a picture at all"));
    assert_eq!(broken, Err(DecodeError::KlzGxt5Info));
    assert_eq!(broken.unwrap_err().message(), "in GXT5 PNG info");
    let swapped = klz::decode(&klz_entry(b"????", b"not a picture at all"));
    assert_eq!(swapped, Err(DecodeError::KlzBgraInfo));
    assert_eq!(swapped.unwrap_err().message(), "error reading BGRA PNG info");
    let mut cut = png_file(4, 4, png::ColorType::Rgba, &[7; 64]);
    cut.truncate(cut.len() - 20);
    assert_eq!(klz::decode(&klz_entry(b"GXT5", &cut)), Err(DecodeError::KlzGxt5Frame));
    let got = klz::decode(&klz_entry(b"????", &cut));
    assert_eq!(got, Err(DecodeError::KlzBgraFrame));
    assert_eq!(got.unwrap_err().message(), "error reading BGRA PNG frame");
    let gray = png_file(1, 1, png::ColorType::Grayscale, &[7]);
    assert_eq!(klz::decode(&klz_entry(b"GXT5", &gray)), Err(DecodeError::PixelData));
    let mut bad = vec![0u8; 50];
    bad.extend_from_slice(&[0u8; 1024]);
    let mut file = klz_entry(b"FXT5", &bad);
    put(&mut file, 156, &4u32.to_le_bytes());
    let got = klz::decode(&file);
    assert_eq!(got, Err(DecodeError::KlzInflate));
    assert_eq!(got.unwrap_err().message(), "error decompressing FXT5 pixel section");
    assert_eq!(klz::decode(&klz_entry(b"FXT5", &[0; 100])), Err(DecodeError::KlzEntrySize));
}

#[test]
fn png_picture_must_be_four_bytes_a_pixel() {
    let rows = kidfile::outside::PngPicture {
        width: 1,
        height: 2,
        line_size: 4,
        color_type: 6,
        bit_depth: 8,
        pixels: vec![1, 2, 3, 0x81, 5, 6, 7, 8],
    };
    let plain = klz::frame_from_png(rows.clone(), false).unwrap();
    assert_eq!(plain.pixels, vec![px(1, 2, 3, 0x81), px(5, 6, 7, 8)]);
    let swapped = klz::frame_from_png(rows.clone(), true).unwrap();
    assert_eq!(swapped.pixels, vec![px(3, 2, 1, 0x03), px(7, 6, 5, 0x10)]);
    assert_eq!(swapped.og_fmt, PixelFormat::Bgra);
    let mut indexed = rows.clone();
    indexed.color_type = 3;
    indexed.bit_depth = 4;
    assert_eq!(klz::frame_from_png(indexed.clone(), true).unwrap().og_fmt, PixelFormat::BgraClut4);
    indexed.bit_depth = 8;
    assert_eq!(klz::frame_from_png(indexed.clone(), true).unwrap().og_fmt, PixelFormat::BgraClut8);
    indexed.bit_depth = 2;
    assert_eq!(klz::frame_from_png(indexed.clone(), true), Err(DecodeError::PngColorType));
    assert!(klz::frame_from_png(indexed, false).is_ok());
    let mut gray = rows.clone();
    gray.line_size = 2;
    assert_eq!(klz::frame_from_png(gray, false), Err(DecodeError::PixelData));
    let mut ragged = rows.clone();
    ragged.pixels.push(0);
    assert_eq!(klz::frame_from_png(ragged, false), Err(DecodeError::PixelData));
    let mut short = rows;
    short.pixels.truncate(4);
    assert_eq!(klz::frame_from_png(short, true), Err(DecodeError::PixelData));
}

fn tim2_frame(depth: u8, w: u16, h: u16, colors: u16, clut_format: u8, image: &[u8], palette: &[u8]) -> Vec<u8> {
    let mut v: Vec<u8> = vec![0; 48];
    put(&mut v, 0, &((48 + image.len() + palette.len()) as u32).to_le_bytes());
    put(&mut v, 4, &(palette.len() as u32).to_le_bytes());
    put(&mut v, 8, &(image.len() as u32).to_le_bytes());
    put(&mut v, 12, &48u16.to_le_bytes());
    put(&mut v, 14, &colors.to_le_bytes());
    v[17] = 1;
    v[18] = clut_format;
    v[19] = depth;
    put(&mut v, 20, &w.to_le_bytes());
    put(&mut v, 22, &h.to_le_bytes());
    v.extend_from_slice(image);
    v.extend_from_slice(palette);
    v
}

fn tim2_file(frames: &[Vec<u8>]) -> Vec<u8> {
    let mut v: Vec<u8> = b"TIM2".to_vec();
    v.extend_from_slice(&4u16.to_le_bytes());
    v.extend_from_slice(&(frames.len() as u16).to_le_bytes());
    v.extend_from_slice(&[0u8; 8]);
    for f in frames {
        v.extend_from_slice(f);
    }
    v
}

fn block_of_pixels(pixels: &[(usize, usize, [u8; 4])]) -> Vec<u8> {
    // one block of 16 by 8 pixels of four bytes
    let mut v = vec![0u8; 128 * 4];
    for (x, y, p) in pixels {
        put(&mut v, (y * 16 + x) * 4, p);
    }
    v
}

#[test]
fn tim2_frame_of_direct_colors() {
    let image = block_of_pixels(&[
        (0, 0, [0xFF, 0x00, 0x00, 0xFF]),
        (1, 0, [0x00, 0xFF, 0x00, 0xFF]),
        (0, 1, [0x00, 0x00, 0xFF, 0xFF]),
        (1, 1, [0xFF, 0xFF, 0xFF, 0xFF]),
    ]);
    let file = tim2_file(&[tim2_frame(3, 2, 2, 1, 0, &image, &[])]);
    assert_eq!(tim2::check(&file), Some(vec![3]));
    let decoded = tim2::decode(&file).unwrap();
    assert_eq!(decoded.frames.len(), 1);
    let f = &decoded.frames[0];
    assert_eq!((f.width, f.height, f.og_fmt), (2, 2, PixelFormat::Rgba));
    assert_eq!(
        f.as_rgba_bytes(),
        vec![0xFF, 0, 0, 0xFF, 0, 0xFF, 0, 0xFF, 0, 0, 0xFF, 0xFF, 0xFF, 0xFF, 0xFF, 0xFF]
    );
    canonical(f);
}

#[test]
fn tim2_alpha_is_doubled_for_colors_with_alpha() {
    let image = block_of_pixels(&[(0, 0, [1, 2, 3, 0x40])]);
    let file = tim2_file(&[tim2_frame(3, 1, 1, 1, 0, &image, &[])]);
    assert_eq!(tim2::decode(&file).unwrap().frames[0].pixels, vec![px(1, 2, 3, 0x7F)]);
    let mut rgb = vec![0u8; 128 * 3];
    put(&mut rgb, 0, &[1, 2, 3]);
    let file = tim2_file(&[tim2_frame(2, 1, 1, 1, 0, &rgb, &[])]);
    let decoded = tim2::decode(&file).unwrap();
    assert_eq!(decoded.frames[0].og_fmt, PixelFormat::Rgb);
    assert_eq!(decoded.frames[0].pixels, vec![px(1, 2, 3, 0xFF)]);
}

#[test]
fn tim2_frame_with_a_palette() {
    let mut indices = vec![0u8; 128];
    indices[0] = 1;
    indices[1] = 0;
    let palette: Vec<u8> = vec![10, 20, 30, 0x80, 40, 50, 60, 0x40];
    // colors of four bytes: the palette format holds the size of a color, less one
    let file = tim2_file(&[tim2_frame(5, 2, 1, 2, 0x83, &indices, &palette)]);
    assert_eq!(tim2::check(&file), Some(vec![5]));
    let decoded = tim2::decode(&file).unwrap();
    let f = &decoded.frames[0];
    assert_eq!((f.width, f.height, f.og_fmt), (2, 1, PixelFormat::RgbaClut8));
    assert_eq!(f.pixels, vec![px(40, 50, 60, 0x7F), px(10, 20, 30, 0xFF)]);
}

#[test]
fn tim2_files_that_cannot_be_handed_on() {
    let image = block_of_pixels(&[]);
    let good = tim2_file(&[tim2_frame(3, 2, 2, 1, 0, &image, &[])]);
    assert!(tim2::check(&good).is_some());
    let refused = |file: Vec<u8>| {
        assert_eq!(tim2::check(&file), None);
        assert_eq!(tim2::decode(&file), Err(DecodeError::Tim2Layout));
    };
    refused(b"TIM2".to_vec());
    refused(b"TIM3\x04\0\x00\0\0\0\0\0\0\0\0\0".to_vec());
    // a frame that is not there
    refused(tim2_file(&[tim2_frame(3, 2, 2, 1, 0, &image, &[])])[..16 + 47].to_vec());
    let mut two = good.clone();
    two[6] = 2;
    refused(two);
    // no color is counted
    refused(tim2_file(&[tim2_frame(3, 2, 2, 0, 0, &image, &[])]));
    // a depth that is not known
    refused(tim2_file(&[tim2_frame(6, 2, 2, 1, 0, &image, &[])]));
    // fewer pixels than the padded image has
    refused(tim2_file(&[tim2_frame(3, 2, 2, 1, 0, &image[..511], &[])]));
    refused(tim2_file(&[tim2_frame(3, 17, 1, 1, 0, &image, &[])]));
    // image data that are cut off
    let mut cut = good.clone();
    cut.truncate(cut.len() - 1);
    refused(cut);
    // indices without a palette, and direct colors with one
    refused(tim2_file(&[tim2_frame(5, 2, 2, 1, 3, &image, &[])]));
    refused(tim2_file(&[tim2_frame(3, 2, 2, 1, 3, &image, &[0; 4])]));
    // an index beyond the palette
    let mut indices = vec![0u8; 128];
    indices[100] = 2;
    refused(tim2_file(&[tim2_frame(5, 2, 2, 2, 3, &indices, &[0; 8])]));
    // a header that is too short for itself
    let mut small = good.clone();
    put(&mut small, 16 + 12, &47u16.to_le_bytes());
    refused(small);
    assert_eq!(tim2::check(&tim2_file(&[])), Some(vec![]));
    assert_eq!(tim2::decode(&tim2_file(&[])), Err(DecodeError::Tim2NoFrames));
    assert_eq!(DecodeError::Tim2NoFrames.message(), "no frames were decoded successfully");
}

fn bip_file(paletted: bool, full: (u16, u16), tiles: &[[u8; 8]], palette: &[u8], pixels: &[u8]) -> Vec<u8> {
    let index = 20usize;
    let frame_records = 12 + 8 * tiles.len() + 2;
    let palette_at = index + frame_records;
    let pixels_at = palette_at + palette.len();
    let mut v: Vec<u8> = Vec::new();
    put(&mut v, 0, &5u32.to_le_bytes());
    put(&mut v, 4, &(index as u32).to_le_bytes());
    put(&mut v, 12, &(palette_at as u32).to_le_bytes());
    put(&mut v, 16, &(pixels_at as u32).to_le_bytes());
    put(&mut v, index, &(tiles.len() as u16).to_le_bytes());
    put(&mut v, index + 2, &(paletted as u16).to_le_bytes());
    put(&mut v, index + 8, &full.0.to_le_bytes());
    put(&mut v, index + 10, &full.1.to_le_bytes());
    for (k, tile) in tiles.iter().enumerate() {
        put(&mut v, index + 12 + 8 * k, tile);
    }
    put(&mut v, index + 12 + 8 * tiles.len(), &0u16.to_le_bytes());
    put(&mut v, palette_at, palette);
    put(&mut v, pixels_at, pixels);
    v
}

fn stored_blocks(bytes_per_pixel: usize, rows: usize, value: impl Fn(usize, usize) -> Vec<u8>) -> Vec<u8> {
    // an image 512 pixels wide
    let mut v = vec![0u8; 512 * bytes_per_pixel * rows + 1];
    for y in 0..rows {
        for x in 0..512 {
            put(&mut v, (y * 512 + x) * bytes_per_pixel, &value(x, y));
        }
    }
    v
}

#[test]
fn bip_blocks_of_direct_colors() {
    // two blocks of 16 by 16 side by side in the store; the tile puts them one below the other
    let pixels = stored_blocks(4, 16, |x, y| vec![x as u8, y as u8, 0, 0x80]);
    let tile: [u8; 8] = [2, 0, 0, 0, 0, 0, 1, 2];
    let image = bip::decode(&bip_file(false, (16, 32), &[tile], &[], &pixels)).unwrap();
    assert_eq!(image.frames.len(), 1);
    let f = &image.frames[0];
    assert_eq!((f.width, f.height, f.og_fmt), (16, 32, PixelFormat::Rgba));
    assert_eq!(f.pixels[0], px(0, 0, 0, 0xFF));
    assert_eq!(f.pixels[15], px(15, 0, 0, 0xFF));
    assert_eq!(f.pixels[16], px(0, 1, 0, 0xFF));
    assert_eq!(f.pixels[16 * 16], px(16, 0, 0, 0xFF));
    assert_eq!(f.pixels[16 * 31 + 15], px(31, 15, 0, 0xFF));
    canonical(f);
}

#[test]
fn bip_blocks_with_a_palette_skip_the_repeated_border() {
    let mut palette = vec![0u8; 1024];
    for i in 0..256usize {
        palette[4 * i] = i as u8;
        palette[4 * i + 3] = 0x80;
    }
    let pixels = stored_blocks(1, 32, |x, y| vec![(x + 2 * y) as u8]);
    let tile: [u8; 8] = [2, 0, 0, 0, 0, 0, 1, 1];
    let image = bip::decode(&bip_file(true, (30, 30), &[tile], &palette, &pixels)).unwrap();
    let f = &image.frames[0];
    assert_eq!((f.width, f.height, f.og_fmt), (30, 30, PixelFormat::RgbaClut8));
    // the block starts one row and one pixel in
    assert_eq!(f.pixels[0], px(3, 0, 0, 0x80));
    assert_eq!(f.pixels[29], px(32, 0, 0, 0x80));
    assert_eq!(f.pixels[30], px(5, 0, 0, 0x80));
    assert_eq!(f.pixels[30 * 29 + 29], px(1 + 29 + 2 * 30, 0, 0, 0x80));
    canonical(f);
}

#[test]
fn bip_second_flavor_is_tried_where_a_tile_reaches_too_far() {
    // three blocks across a frame 30 wide: too far for blocks of 16, not for blocks of 14
    let pixels = stored_blocks(4, 16, |x, y| vec![x as u8, y as u8, 0, 2]);
    let tile: [u8; 8] = [2, 0, 0, 0, 0, 0, 3, 1];
    let file = bip_file(false, (30, 14), &[tile], &[], &pixels);
    let image = bip::decode(&file).unwrap();
    let f = &image.frames[0];
    assert_eq!((f.width, f.height), (30, 14));
    // blocks of 14 start one row and one pixel into each stored block of 16
    assert_eq!(f.pixels[0], px(1, 1, 0, 3));
    assert_eq!(f.pixels[13], px(14, 1, 0, 3));
    assert_eq!(f.pixels[14], px(17, 1, 0, 3));
    assert_eq!(f.pixels[28], px(33, 1, 0, 3));
    assert_eq!(f.pixels[30], px(1, 2, 0, 3));
    assert_eq!(bip::read_pass(&file, false), Err(DecodeError::BipTileOverflow));
    assert_eq!(bip::read_pass(&file, true), Ok(image));
    let tile: [u8; 8] = [2, 0, 0, 0, 0, 0, 9, 1];
    let got = bip::decode(&bip_file(false, (30, 14), &[tile], &[], &pixels));
    assert_eq!(got, Err(DecodeError::BipTileOverflow));
    assert_eq!(got.unwrap_err().message(), "tile overflow");
}

/// A file of one tile that holds a PNG picture, and where the data of the tile start.
fn bip_with_picture(picture: &[u8]) -> (Vec<u8>, usize) {
    // the record of the tile has 28 bytes; the data of the tile start with 132 bytes of header
    let mut data = vec![0u8; 132];
    put(&mut data, 32, &((124 + picture.len()) as u32).to_le_bytes());
    put(&mut data, 116, &1u32.to_le_bytes());
    put(&mut data, 120, &0u32.to_le_bytes());
    data.extend_from_slice(picture);
    let index = 20usize;
    let pixels_at = index + 12 + 28 + 2;
    let mut v: Vec<u8> = Vec::new();
    put(&mut v, 0, &5u32.to_le_bytes());
    put(&mut v, 4, &(index as u32).to_le_bytes());
    put(&mut v, 12, &0u32.to_le_bytes());
    put(&mut v, 16, &(pixels_at as u32).to_le_bytes());
    put(&mut v, index, &1u16.to_le_bytes());
    put(&mut v, index + 12, &7u16.to_le_bytes());
    put(&mut v, index + 12 + 8, &1u16.to_le_bytes());
    put(&mut v, index + 12 + 10, &1u16.to_le_bytes());
    put(&mut v, index + 12 + 20, &4u16.to_le_bytes());
    put(&mut v, index + 12 + 22, &3u16.to_le_bytes());
    put(&mut v, index + 12 + 24, &0u32.to_le_bytes());
    put(&mut v, index + 12 + 28, &0u16.to_le_bytes());
    put(&mut v, pixels_at, &data);
    (v, pixels_at)
}

#[test]
fn bip_tile_with_a_png_picture() {
    let picture = png_file(2, 1, png::ColorType::Rgba, &[1, 2, 3, 0x40, 5, 6, 7, 0x80]);
    let (v, pixels_at) = bip_with_picture(&picture);
    let image = bip::decode(&v).unwrap();
    let f = &image.frames[0];
    assert_eq!((f.width, f.height, f.og_fmt), (4, 3, PixelFormat::Bgra));
    let at = |x: usize, y: usize| f.pixels[y * 4 + x];
    assert_eq!(at(2, 1), px(3, 2, 1, 0x7F));
    assert_eq!(at(3, 1), px(7, 6, 5, 0xFF));
    assert_eq!(f.pixels.iter().filter(|p| **p != px(0, 0, 0, 0)).count(), 2);
    canonical(f);
    let mut broken = v.clone();
    put(&mut broken, pixels_at + 132, b"junk");
    let got = bip::decode(&broken);
    assert_eq!(got, Err(DecodeError::BipPngInfo));
    assert_eq!(got.unwrap_err().message(), "in PNGFILE2 PNG info");
    let mut far = v.clone();
    put(&mut far, pixels_at + 32, &9999u32.to_le_bytes());
    assert_eq!(bip::decode(&far), Err(DecodeError::BipPngRange));
}

#[test]
fn bip_tile_with_a_png_picture_that_breaks_off() {
    let mut cut = png_file(4, 4, png::ColorType::Rgba, &[7; 64]);
    cut.truncate(cut.len() - 20);
    let (v, _) = bip_with_picture(&cut);
    let got = bip::decode(&v);
    assert_eq!(got, Err(DecodeError::BipPngFrame));
    assert_eq!(got.unwrap_err().message(), "in PNGFILE2 PNG frame");
}

#[test]
fn bip_failures() {
    assert_eq!(bip::decode(&[5, 0, 0]), Err(DecodeError::ReadField));
    assert_eq!(bip::decode(&[1, 0, 0, 0, 0, 0, 0, 0]), Err(DecodeError::ReadField));
    let none = bip::decode(&bip_file(false, (16, 16), &[], &[], &[]));
    assert_eq!(none, Err(DecodeError::BipNoFrames));
    assert_eq!(none.unwrap_err().message(), "no frames decoded");
    let odd: [u8; 8] = [3, 0, 0, 0, 0, 0, 1, 1];
    let got = bip::decode(&bip_file(false, (16, 16), &[odd], &[], &[0; 64]));
    assert_eq!(got, Err(DecodeError::BipTileSize { size: 3 }));
    assert_eq!(got.unwrap_err().message(), "unhandled bip tile index size 3");
    let tile: [u8; 8] = [2, 0, 0, 0, 0, 0, 1, 1];
    let mut no_palette = bip_file(true, (30, 30), &[tile], &[], &[0; 64]);
    put(&mut no_palette, 12, &100000u32.to_le_bytes());
    assert_eq!(bip::decode(&no_palette), Err(DecodeError::BipPalette));
    let pixels = stored_blocks(1, 32, |_, _| vec![9]);
    let short_palette = bip_file(true, (30, 30), &[tile], &[0; 4], &pixels);
    // the palette is what follows its start: at the end of the file it is too short for the index 9
    let mut late = short_palette.clone();
    let at = late.len() as u32 - 4;
    put(&mut late, 12, &at.to_le_bytes());
    assert_eq!(bip::decode(&late), Err(DecodeError::PixelData));
    assert!(bip::decode(&short_palette).is_ok());
    let header = bip::read_header(&short_palette).unwrap();
    assert_eq!(header.index_section, 20);
    assert_eq!(header.palette_section, 20 + 22);
    assert_eq!(header.pixel_section, 20 + 22 + 4);
}

#[test]
fn tim2_pictures_must_match_the_frames_of_the_file() {
    let got = tim2::image_from_pictures(None, &[3]);
    assert_eq!(got, Err(DecodeError::Tim2Parse));
    assert_eq!(got.unwrap_err().message(), "frames could not be read");
    let one = kidfile::outside::Picture { width: 1, height: 1, rgba: vec![1, 2, 3, 4] };
    assert_eq!(tim2::image_from_pictures(Some(vec![one.clone()]), &[3, 3]), Err(DecodeError::Tim2Parse));
    let image = tim2::image_from_pictures(Some(vec![one.clone()]), &[2]).unwrap();
    assert_eq!(image.frames[0].og_fmt, PixelFormat::Rgb);
    assert_eq!(image.frames[0].pixels, vec![px(1, 2, 3, 4)]);
    let empty = kidfile::outside::Picture { width: 0, height: 0, rgba: vec![] };
    assert_eq!(tim2::image_from_pictures(Some(vec![empty]), &[3]), Err(DecodeError::Tim2NoFrames));
    assert_eq!(
        DecodeError::ImageSize.message(),
        "image has more pixels than can be counted"
    );
}
