use kidfile::image::{
    bit_twiddle, bits_4_to_8, bits_5_to_8, bits_6_to_8, fix_clut, Frame, Pixel, PixelFormat,
};

fn px(r: u8, g: u8, b: u8, a: u8) -> Pixel {
    Pixel { r, g, b, a }
}

#[test]
fn channels_are_widened_by_repeating_bits() {
    assert_eq!(bits_4_to_8(0x0), 0x00);
    assert_eq!(bits_4_to_8(0xA), 0xAA);
    assert_eq!(bits_4_to_8(0xFA), 0xAA);
    assert_eq!(bits_5_to_8(0x00), 0x00);
    assert_eq!(bits_5_to_8(0x10), 0x80);
    assert_eq!(bits_5_to_8(0x11), 0x8F);
    assert_eq!(bits_5_to_8(0x1F), 0xFF);
    assert_eq!(bits_6_to_8(0x20), 0x80);
    assert_eq!(bits_6_to_8(0x21), 0x87);
    assert_eq!(bits_6_to_8(0x3F), 0xFF);
}

#[test]
fn bits_per_pixel_and_names() {
    assert_eq!(PixelFormat::Rgba.bpp(), 32);
    assert_eq!(PixelFormat::Bgr.bpp(), 24);
    assert_eq!(PixelFormat::Rgb16.bpp(), 16);
    assert_eq!(PixelFormat::BgrxClut8.bpp(), 8);
    assert_eq!(PixelFormat::RgbClut4.bpp(), 4);
    assert_eq!(PixelFormat::Rgba16.name(), "RGBA5551");
    assert_eq!(PixelFormat::Bgr16.name(), "BGR565");
    assert_eq!(PixelFormat::BgraClut4.name(), "BGRA clut4");
}

#[test]
fn direct_layouts() {
    let buf: Vec<u8> = vec![1, 2, 3, 4, 5, 6, 7, 8];
    let rgba = Frame::from_rgba(2, 1, &buf);
    assert_eq!(rgba.pixels, vec![px(1, 2, 3, 4), px(5, 6, 7, 8)]);
    assert_eq!(rgba.og_fmt, PixelFormat::Rgba);
    assert_eq!((rgba.width, rgba.height), (2, 1));
    assert_eq!(Frame::from_bgra(2, 1, &buf).pixels, vec![px(3, 2, 1, 4), px(7, 6, 5, 8)]);
    assert_eq!(Frame::from_rgbx(2, 1, &buf).pixels, vec![px(1, 2, 3, 255), px(5, 6, 7, 255)]);
    assert_eq!(Frame::from_bgrx(2, 1, &buf).pixels, vec![px(3, 2, 1, 255), px(7, 6, 5, 255)]);
    assert_eq!(Frame::from_rgb(2, 1, &buf).pixels, vec![px(1, 2, 3, 255), px(4, 5, 6, 255)]);
    assert_eq!(Frame::from_bgr(2, 1, &buf).pixels, vec![px(3, 2, 1, 255), px(6, 5, 4, 255)]);
}

#[test]
fn sixteen_bit_layouts() {
    // 0x001F: the low five bits; 0x8000: the top bit; 0x07E0: the six bits of green
    let buf: Vec<u8> = vec![0x1F, 0x00, 0x00, 0x80, 0xE0, 0x07];
    // with alpha the green has five bits, and the top bit is alpha alone
    assert_eq!(
        Frame::from_rgba16(3, 1, &buf).pixels,
        vec![px(255, 0, 0, 0), px(0, 0, 0, 255), px(0, 0xFF, 0x0F, 0)]
    );
    assert_eq!(
        Frame::from_bgra16(3, 1, &buf).pixels,
        vec![px(0, 0, 255, 0), px(0, 0, 0, 255), px(0x0F, 0xFF, 0, 0)]
    );
    // 0x7C00: bits 10 to 14, the third color
    assert_eq!(Frame::from_rgba16(1, 1, &[0x00, 0x7C]).pixels, vec![px(0, 0, 0xFF, 0)]);
    assert_eq!(Frame::from_bgra16(1, 1, &[0x00, 0x7C]).pixels, vec![px(0xFF, 0, 0, 0)]);
    assert_eq!(Frame::from_rgba16(1, 1, &[0x00, 0x04]).pixels, vec![px(0, 0, 0x0F, 0)]);
    assert_eq!(Frame::from_rgba16(1, 1, &[0xFF, 0xFF]).pixels, vec![px(255, 255, 255, 255)]);
    assert_eq!(
        Frame::from_rgb16(3, 1, &buf).pixels,
        vec![px(255, 0, 0, 255), px(0, 0, 0x80, 255), px(0, 0xFF, 0, 255)]
    );
    assert_eq!(
        Frame::from_bgr16(3, 1, &buf).pixels,
        vec![px(0, 0, 255, 255), px(0x80, 0, 0, 255), px(0, 0xFF, 0, 255)]
    );
    let nibbles: Vec<u8> = vec![0x21, 0x43];
    assert_eq!(Frame::from_rgba4444(1, 1, &nibbles).pixels, vec![px(0x11, 0x22, 0x33, 0x44)]);
    assert_eq!(Frame::from_bgra4444(1, 1, &nibbles).pixels, vec![px(0x33, 0x22, 0x11, 0x44)]);
}

#[test]
fn palettes_of_four_bytes() {
    let clut: Vec<u8> = vec![10, 11, 12, 13, 20, 21, 22, 23, 30, 31, 32, 33];
    let idx: Vec<u8> = vec![2, 0, 1];
    assert_eq!(
        Frame::from_rgba_clut8(3, 1, &clut, &idx).pixels,
        vec![px(30, 31, 32, 33), px(10, 11, 12, 13), px(20, 21, 22, 23)]
    );
    assert_eq!(
        Frame::from_bgra_clut8(3, 1, &clut, &idx).pixels,
        vec![px(32, 31, 30, 33), px(12, 11, 10, 13), px(22, 21, 20, 23)]
    );
    assert_eq!(
        Frame::from_rgbx_clut8(3, 1, &clut, &idx).pixels,
        vec![px(30, 31, 32, 255), px(10, 11, 12, 255), px(20, 21, 22, 255)]
    );
    assert_eq!(
        Frame::from_bgrx_clut8(3, 1, &clut, &idx).pixels,
        vec![px(32, 31, 30, 255), px(12, 11, 10, 255), px(22, 21, 20, 255)]
    );
}

#[test]
fn palettes_of_three_bytes() {
    let clut: Vec<u8> = vec![10, 11, 12, 20, 21, 22, 30, 31, 32];
    let idx: Vec<u8> = vec![2, 0];
    assert_eq!(
        Frame::from_rgb_clut8(2, 1, &clut, &idx).pixels,
        vec![px(30, 31, 32, 255), px(10, 11, 12, 255)]
    );
    assert_eq!(
        Frame::from_bgr_clut8(2, 1, &clut, &idx).pixels,
        vec![px(32, 31, 30, 255), px(12, 11, 10, 255)]
    );
    let packed: Vec<u8> = vec![0x20];
    assert_eq!(
        Frame::from_rgb_clut4(2, 1, &clut, &packed).pixels,
        vec![px(10, 11, 12, 255), px(30, 31, 32, 255)]
    );
    assert_eq!(
        Frame::from_bgr_clut4(2, 1, &clut, &packed).pixels,
        vec![px(12, 11, 10, 255), px(32, 31, 30, 255)]
    );
}

#[test]
fn four_bit_indices_take_the_low_half_first() {
    let clut: Vec<u8> = vec![10, 11, 12, 13, 20, 21, 22, 23, 30, 31, 32, 33];
    let packed: Vec<u8> = vec![0x21, 0x00];
    let expected_rgba =
        vec![px(20, 21, 22, 23), px(30, 31, 32, 33), px(10, 11, 12, 13), px(10, 11, 12, 13)];
    assert_eq!(Frame::from_rgba_clut4(4, 1, &clut, &packed).pixels, expected_rgba);
    assert_eq!(
        Frame::from_bgra_clut4(2, 1, &clut, &packed).pixels,
        vec![px(22, 21, 20, 23), px(32, 31, 30, 33)]
    );
    assert_eq!(
        Frame::from_rgbx_clut4(2, 1, &clut, &packed).pixels,
        vec![px(20, 21, 22, 255), px(30, 31, 32, 255)]
    );
    assert_eq!(
        Frame::from_bgrx_clut4(2, 1, &clut, &packed).pixels,
        vec![px(22, 21, 20, 255), px(32, 31, 30, 255)]
    );
}

#[test]
fn raw_data_that_does_not_fit_makes_no_frame() {
    let clut: Vec<u8> = vec![0; 8];
    assert!(Frame::try_new(PixelFormat::Rgba, 2, 2, &[], &[0u8; 15]).is_none());
    assert!(Frame::try_new(PixelFormat::Rgba, 2, 2, &[], &[0u8; 16]).is_some());
    assert!(Frame::try_new(PixelFormat::RgbaClut8, 1, 1, &clut, &[2]).is_none());
    assert!(Frame::try_new(PixelFormat::RgbaClut8, 1, 1, &clut, &[1]).is_some());
    assert!(Frame::try_new(PixelFormat::RgbxClut8, 1, 1, &clut[..7], &[1]).is_some());
    assert!(Frame::try_new(PixelFormat::RgbaClut8, 1, 1, &clut[..7], &[1]).is_none());
    assert!(Frame::try_new(PixelFormat::PsxClut4, 1, 1, &clut, &[0u8; 16]).is_none());
    assert!(Frame::try_new(PixelFormat::RgbaClut4, 3, 1, &clut, &[0x10]).is_none());
    let odd = Frame::try_new(PixelFormat::RgbaClut4, 3, 1, &clut, &[0x10, 0x01]).unwrap();
    assert_eq!(odd.pixels.len(), 3);
}

#[test]
fn empty_frame_is_clear() {
    let f = Frame::empty(3, 2, PixelFormat::Bgra);
    assert_eq!(f.pixels, vec![px(0, 0, 0, 0); 6]);
    assert_eq!((f.width, f.height, f.og_fmt), (3, 2, PixelFormat::Bgra));
    assert_eq!(Frame::empty(0, 5, PixelFormat::Rgb).pixels.len(), 0);
}

#[test]
fn double_alpha_scales_128_to_255() {
    let buf: Vec<u8> = vec![1, 2, 3, 0x00, 1, 2, 3, 0x01, 1, 2, 3, 0x40, 1, 2, 3, 0x80, 1, 2, 3, 0xFF];
    let f = Frame::from_rgba(5, 1, &buf).with_double_alpha();
    let alphas: Vec<u8> = f.pixels.iter().map(|p| p.a).collect();
    assert_eq!(alphas, vec![0x00, 0x01, 0x7F, 0xFF, 0xFF]);
    assert!(f.pixels.iter().all(|p| (p.r, p.g, p.b) == (1, 2, 3)));
}

#[test]
fn double_alpha_never_lowers_an_alpha_value() {
    let buf: Vec<u8> = (0..=255u8).flat_map(|a| [0, 0, 0, a]).collect();
    let before = Frame::from_rgba(256, 1, &buf);
    let after = before.clone().with_double_alpha();
    for (old, new) in before.pixels.iter().zip(after.pixels.iter()) {
        assert!(new.a >= old.a);
        assert_eq!(new.a as u32, (old.a as u32 * 255 / 128).min(255));
    }
}

#[test]
fn label_can_be_changed() {
    let f = Frame::empty(1, 1, PixelFormat::Rgba).with_og_fmt(PixelFormat::Bgr565Vq8);
    assert_eq!(f.og_fmt, PixelFormat::Bgr565Vq8);
    assert_eq!(f.pixels.len(), 1);
}

fn numbered(width: u32, height: u32) -> Frame {
    let buf: Vec<u8> = (0..width * height).flat_map(|i| [i as u8, 0, 0, 255]).collect();
    Frame::from_rgba(width, height, &buf)
}

fn reds(f: &Frame) -> Vec<u8> {
    f.pixels.iter().map(|p| p.r).collect()
}

#[test]
fn rows_are_slices_of_the_pixels() {
    let mut f = numbered(3, 2);
    assert_eq!(f.row(0).iter().map(|p| p.r).collect::<Vec<u8>>(), vec![0, 1, 2]);
    assert_eq!(f.row(1).iter().map(|p| p.r).collect::<Vec<u8>>(), vec![3, 4, 5]);
    f.row_mut(1)[2] = px(99, 0, 0, 255);
    assert_eq!(reds(&f), vec![0, 1, 2, 3, 4, 99]);
    assert_eq!((f.width, f.height), (3, 2));
}

#[test]
fn resize_keeps_the_top_left_corner() {
    let mut grown = numbered(2, 2);
    grown.resize(3, 3);
    assert_eq!(reds(&grown), vec![0, 1, 0, 2, 3, 0, 0, 0, 0]);
    assert_eq!(grown.pixels[2], px(0, 0, 0, 0));
    assert_eq!((grown.width, grown.height), (3, 3));
    let cut = numbered(3, 3).resized(2, 1);
    assert_eq!(reds(&cut), vec![0, 1]);
    let taller = numbered(2, 1).resized(2, 2);
    assert_eq!(reds(&taller), vec![0, 1, 0, 0]);
    assert_eq!(taller.pixels[3].a, 0);
    assert_eq!(numbered(2, 2).resized(0, 0).pixels.len(), 0);
}

#[test]
fn paste_copies_a_rectangle_and_clips_it() {
    let mut canvas = Frame::empty(3, 3, PixelFormat::Rgba);
    let src = numbered(2, 2);
    canvas.paste(1, 1, &src);
    assert_eq!(reds(&canvas), vec![0, 0, 0, 0, 0, 1, 0, 2, 3]);
    let mut clipped = Frame::empty(3, 3, PixelFormat::Rgba);
    clipped.paste(2, 2, &src);
    assert_eq!(clipped.pixels[8], px(0, 0, 0, 255));
    assert_eq!(clipped.pixels.iter().filter(|p| p.a == 255).count(), 1);
    let mut outside = Frame::empty(2, 2, PixelFormat::Rgba);
    outside.paste(5, 0, &src);
    outside.paste(0, u32::MAX, &src);
    outside.paste(u32::MAX, u32::MAX, &src);
    assert_eq!(outside.pixels, vec![px(0, 0, 0, 0); 4]);
}

#[test]
fn paste_resizing_grows_the_frame() {
    let mut canvas = numbered(2, 1);
    let src = numbered(2, 2);
    canvas.paste_resizing(1, 1, &src);
    assert_eq!((canvas.width, canvas.height), (3, 3));
    assert_eq!(reds(&canvas), vec![0, 1, 0, 0, 0, 1, 0, 2, 3]);
    let mut same = Frame::empty(2, 2, PixelFormat::Rgba);
    same.paste_resizing(0, 0, &src);
    assert_eq!((same.width, same.height), (2, 2));
    assert_eq!(reds(&same), vec![0, 1, 2, 3]);
}

#[test]
fn crushed_down_keeps_the_leading_part_of_each_chunk() {
    let width = 64u32;
    let height = 32u32;
    let mut f = Frame::empty(width, height, PixelFormat::Rgba);
    for y in 0..height {
        for x in 0..width {
            f.pixels[(y * width + x) as usize] = px(x as u8, y as u8, 0, 255);
        }
    }
    let same = f.clone().crushed_down(64, 32);
    assert_eq!(same, f);
    let small = f.crushed_down(32, 16);
    assert_eq!((small.width, small.height), (32, 16));
    assert_eq!(small.pixels.len(), 32 * 16);
    // of each chunk the first 16 columns and the first 16 rows
    assert_eq!(small.pixels[0], px(0, 0, 0, 255));
    assert_eq!(small.pixels[15], px(15, 0, 0, 255));
    assert_eq!(small.pixels[16], px(32, 0, 0, 255));
    assert_eq!(small.pixels[31], px(47, 0, 0, 255));
    assert_eq!(small.pixels[32], px(0, 1, 0, 255));
    assert_eq!(small.pixels[15 * 32 + 31], px(47, 15, 0, 255));
}

#[test]
fn twiddle_interleaves_the_bits_of_row_and_column() {
    assert_eq!(bit_twiddle(0), 0);
    assert_eq!(bit_twiddle(1), 1);
    assert_eq!(bit_twiddle(2), 4);
    assert_eq!(bit_twiddle(3), 5);
    assert_eq!(bit_twiddle(0b1011), 0b0100_0101);
    assert_eq!(bit_twiddle(u32::MAX), 0x5555_5555_5555_5555);
    // in a twiddled 2 by 2 image the pixels lie in the order (0,0) (0,1) (1,0) (1,1)
    let stored = numbered(2, 2);
    assert_eq!(reds(&stored.twiddled_dc()), vec![0, 2, 1, 3]);
    let wide = numbered(4, 2).twiddled_dc();
    assert_eq!(reds(&wide), vec![0, 2, 0, 0, 1, 3, 0, 0]);
    assert_eq!(wide.pixels[2].a, 0);
}

#[test]
fn bytes_of_a_frame() {
    let f = Frame::from_bgra(2, 1, &[1, 2, 3, 4, 5, 6, 7, 8]);
    assert_eq!(f.as_rgba_bytes(), vec![3, 2, 1, 4, 7, 6, 5, 8]);
    let big = Frame::empty(7, 5, PixelFormat::Rgba);
    assert_eq!(big.pixels.len(), 35);
    assert_eq!(big.as_rgba_bytes().len(), 7 * 5 * 4);
}

#[test]
fn palette_shuffle_swaps_the_middle_runs_of_each_block() {
    let mut clut: Vec<u8> = Vec::new();
    for i in 0..70u8 {
        clut.extend_from_slice(&[i, 0, 0, 0]);
    }
    let out = fix_clut(&clut);
    assert_eq!(out.len(), 64 * 4);
    let entries: Vec<u8> = out.chunks(4).map(|c| c[0]).collect();
    assert_eq!(&entries[0..8], &[0, 1, 2, 3, 4, 5, 6, 7]);
    assert_eq!(&entries[8..16], &[16, 17, 18, 19, 20, 21, 22, 23]);
    assert_eq!(&entries[16..24], &[8, 9, 10, 11, 12, 13, 14, 15]);
    assert_eq!(&entries[24..32], &[24, 25, 26, 27, 28, 29, 30, 31]);
    assert_eq!(entries[32 + 8], 32 + 16);
    assert_eq!(entries[32 + 16], 32 + 8);
}

#[test]
fn four_bit_frames_of_odd_area_hold_every_pixel() {
    let mut clut: Vec<u8> = Vec::new();
    for i in 0..16u8 {
        clut.extend_from_slice(&[i, i + 100, i + 200, 255]);
    }
    // three pixels: the third is the low half of a second byte
    let f = Frame::from_rgba_clut4(3, 1, &clut, &[0x21, 0xF3]);
    assert_eq!((f.width, f.height, f.og_fmt), (3, 1, PixelFormat::RgbaClut4));
    assert_eq!(f.pixels, vec![px(1, 101, 201, 255), px(2, 102, 202, 255), px(3, 103, 203, 255)]);
    assert_eq!(f.as_rgba_bytes().len(), 12);
    let g = Frame::from_bgra_clut4(1, 1, &clut, &[0x04]);
    assert_eq!(g.pixels, vec![px(204, 104, 4, 255)]);
    // the byte of the last pixel must be there
    assert!(Frame::try_new(PixelFormat::RgbaClut4, 3, 1, &clut, &[0x21]).is_none());
    assert!(Frame::try_new(PixelFormat::RgbaClut4, 2, 1, &clut, &[0x21]).is_some());
    assert!(Frame::try_new(PixelFormat::RgbClut4, 3, 3, &clut, &[0; 5]).is_some());
    assert!(Frame::try_new(PixelFormat::RgbClut4, 3, 3, &clut, &[0; 4]).is_none());
}

#[test]
fn crushing_down_to_no_width_or_height_leaves_no_pixels() {
    let frame = Frame::empty(64, 32, PixelFormat::Rgba);
    let flat = frame.clone().crushed_down(0, 30);
    assert_eq!((flat.width, flat.height, flat.pixels.len()), (0, 30, 0));
    let low = frame.clone().crushed_down(60, 0);
    assert_eq!((low.width, low.height, low.pixels.len()), (60, 0, 0));
    let none = frame.crushed_down(0, 0);
    assert_eq!((none.width, none.height, none.pixels.len()), (0, 0, 0));
}
