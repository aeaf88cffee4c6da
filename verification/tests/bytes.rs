use kidfile::byte_iter::{ByteIter, SliceBytes};
use kidfile::byte_slice::ByteSlice;
use kidfile::error::DecodeError;
use kidfile::text::{decimal, hex};

#[test]
fn little_endian_fields_are_read_exactly() {
    let buf: Vec<u8> = vec![0x01, 0x02, 0x03, 0x04, 0x05, 0x06, 0x07, 0x08, 0x09];
    let s: &[u8] = &buf;
    assert_eq!(s.read_u8(0), Ok(0x01));
    assert_eq!(s.read_u16(1), Ok(0x0302));
    assert_eq!(s.read_u32(0), Ok(0x0403_0201));
    assert_eq!(s.read_u64(1), Ok(0x0908_0706_0504_0302));
    assert_eq!(s.get_u32_at(5), Some(0x0908_0706));
}

#[test]
fn big_endian_fields_are_read_exactly() {
    let buf: Vec<u8> = vec![0x01, 0x02, 0x03, 0x04, 0x05, 0x06, 0x07, 0x08, 0x09];
    let s: &[u8] = &buf;
    assert_eq!(s.read_u16_be(1), Ok(0x0203));
    assert_eq!(s.read_u32_be(0), Ok(0x0102_0304));
    assert_eq!(s.read_u64_be(1), Ok(0x0203_0405_0607_0809));
    assert_eq!(s.get_u16_at_be(7), Some(0x0809));
}

#[test]
fn signed_fields_follow_twos_complement() {
    let buf: Vec<u8> = vec![0xFF, 0xFE, 0xFF, 0xFF, 0xFF, 0x7F, 0x80, 0x00];
    let s: &[u8] = &buf;
    assert_eq!(s.read_i8(0), Ok(-1));
    assert_eq!(s.read_i16(0), Ok(-257));
    assert_eq!(s.read_i16_be(0), Ok(-2));
    assert_eq!(s.read_i32(1), Ok(-2));
    assert_eq!(s.read_i16(4), Ok(0x7FFF));
    assert_eq!(s.read_i16(6), Ok(0x0080));
    assert_eq!(s.read_i16_be(6), Ok(-32768));
    assert_eq!(s.get_i64_at(0), Some(0x0080_7FFF_FFFF_FEFFu64 as i64));
}

#[test]
fn fields_beyond_the_end_are_refused() {
    let buf: Vec<u8> = vec![1, 2, 3];
    let s: &[u8] = &buf;
    assert_eq!(s.read_u32(0), Err(DecodeError::ReadField));
    assert_eq!(s.read_u16(2), Err(DecodeError::ReadField));
    assert_eq!(s.read_u8(3), Err(DecodeError::ReadField));
    assert_eq!(s.get_u16_at(2), None);
    assert_eq!(s.get_u8_at(usize::MAX), None);
    assert_eq!(s.read_u16(1), Ok(0x0302));
}

#[test]
fn prefix_probe_at_an_offset() {
    let buf: Vec<u8> = b"xxAFS\0yy".to_vec();
    let s: &[u8] = &buf;
    assert!(s.starts_with_at(b"AFS\0", 2));
    assert!(!s.starts_with_at(b"AFS\0", 1));
    assert!(!s.starts_with_at(b"AFS\0", 6));
    assert!(s.starts_with_at(b"", 8));
    assert!(!s.starts_with_at(b"", 9));
}

#[test]
fn named_region_reports_its_name() {
    let buf: Vec<u8> = vec![1, 2, 3, 4, 5];
    let s: &[u8] = &buf;
    assert_eq!(s.read_bytes(1, 3, "palette"), Ok(&buf[1..4]));
    let err = s.read_bytes(3, 3, "palette").unwrap_err();
    assert_eq!(err, DecodeError::ReadRegion { name: "palette" });
    assert_eq!(err.message(), "error reading palette");
}

#[test]
fn unswizzle_reads_blocks_of_16_by_8() {
    let src: Vec<u8> = (0..=255u8).collect();
    let s: &[u8] = &src;
    let out = s.unswizzled_psp(32, 8);
    assert_eq!(out.len(), 256);
    assert_eq!(out[0], 0);
    assert_eq!(out[15], 15);
    assert_eq!(out[16], 128);
    assert_eq!(out[31], 143);
    assert_eq!(out[32], 16);
    assert_eq!(out[33], 17);
    assert_eq!(out[32 + 16], 144);
    assert_eq!(out[7 * 32 + 31], 255);
}

#[test]
fn unswizzle_fills_missing_bytes_with_zero() {
    let src: Vec<u8> = vec![7; 20];
    let s: &[u8] = &src;
    let out = s.unswizzled_psp(16, 8);
    assert_eq!(out.len(), 128);
    assert_eq!(out[0], 7);
    assert_eq!(out[16], 7);
    assert_eq!(out[19], 7);
    assert_eq!(out[20], 0);
    assert_eq!(out[127], 0);
}

fn swizzle(image: &[u8], width: usize, height: usize) -> Vec<u8> {
    let mut packed = vec![0u8; width * height];
    for j in 0..width * height {
        let block = j / 128;
        let within = j % 128;
        let x = (block % (width / 16)) * 16 + within % 16;
        let y = (block / (width / 16)) * 8 + within / 16;
        packed[j] = image[y * width + x];
    }
    packed
}

#[test]
fn unswizzle_undoes_swizzle() {
    let width = 48usize;
    let height = 24usize;
    let image: Vec<u8> = (0..width * height).map(|i| (i * 7 % 251) as u8).collect();
    let packed = swizzle(&image, width, height);
    assert_ne!(packed, image);
    let s: &[u8] = &packed;
    assert_eq!(s.unswizzled_psp(width as u32, height as u32), image);
}

#[test]
fn byte_iter_takes_integers_from_the_front() {
    let buf: Vec<u8> = vec![0x12, 0x34, 0x56, 0x78, 0x9A, 0xBC, 0xDE];
    let mut it = SliceBytes::new(&buf);
    assert_eq!(it.len(), 7);
    assert_eq!(it.next(), Some(0x12));
    assert_eq!(it.next_u16_be(), Some(0x3456));
    assert_eq!(it.next_u16(), Some(0x9A78));
    assert_eq!(it.len(), 2);
    assert_eq!(it.next_u32(), None);
    assert_eq!(it.len(), 2);
    assert_eq!(it.next_bytes(2), Some(vec![0xBC, 0xDE]));
    assert_eq!(it.next(), None);
    assert_eq!(it.next_bytes(0), Some(vec![]));
}

#[test]
fn byte_iter_signed_and_wide() {
    let buf: Vec<u8> = vec![0xFF, 0x80, 0x00, 1, 2, 3, 4, 5, 6, 7, 8];
    let mut it = SliceBytes::new(&buf);
    assert_eq!(it.next_i8(), Some(-1));
    assert_eq!(it.next_i16_be(), Some(-32768));
    assert_eq!(it.next_u64(), Some(0x0807_0605_0403_0201));
    assert_eq!(it.next_i8_be(), None);
}

#[test]
fn numbers_are_written_in_decimal_and_hex() {
    assert_eq!(decimal(0), "0");
    assert_eq!(decimal(7), "7");
    assert_eq!(decimal(4096), "4096");
    assert_eq!(decimal(u64::MAX), "18446744073709551615");
    assert_eq!(hex(0), "0");
    assert_eq!(hex(0x13), "13");
    assert_eq!(hex(0xABCDEF), "ABCDEF");
    assert_eq!(hex(u64::MAX), "FFFFFFFFFFFFFFFF");
}

#[test]
fn fields_as_wide_as_an_address() {
    let buf: Vec<u8> = vec![0x01, 0x02, 0x03, 0x04, 0x05, 0x06, 0x07, 0xF8, 0x09];
    let s: &[u8] = &buf;
    let n = kidfile::byte_slice::word_size();
    assert_eq!(n, std::mem::size_of::<usize>());
    let mut first = [0u8; std::mem::size_of::<usize>()];
    first.copy_from_slice(&buf[..n]);
    assert_eq!(s.read_usize(0), Ok(usize::from_le_bytes(first)));
    assert_eq!(s.read_usize_be(0), Ok(usize::from_be_bytes(first)));
    assert_eq!(s.get_isize_at(0), Some(isize::from_le_bytes(first)));
    assert_eq!(s.get_isize_at_be(0), Some(isize::from_be_bytes(first)));
    assert_eq!(s.get_usize_at(buf.len() - n + 1), None);
    assert_eq!(s.read_isize_be(buf.len()), Err(DecodeError::ReadField));
    assert_eq!(s.get_usize_at(buf.len() - n).is_some(), true);
    let mut it = SliceBytes::new(&buf);
    assert_eq!(it.next(), Some(0x01));
    let mut second = [0u8; std::mem::size_of::<usize>()];
    second.copy_from_slice(&buf[1..1 + n]);
    assert_eq!(it.next_isize(), Some(isize::from_le_bytes(second)));
    assert_eq!(it.len(), buf.len() - 1 - n);
    let mut it = SliceBytes::new(&buf[..n - 1]);
    assert_eq!(it.next_usize_be(), None);
    assert_eq!(it.len(), n - 1);
    let mut data = kidfile::file_data::FileData::Memory { buf: buf.clone() };
    let disk = kidfile::file_data::Disk::new();
    assert_eq!(data.read_usize(&disk, 1), Ok(usize::from_le_bytes(second)));
    assert_eq!(data.get_isize_at_be(&disk, 1), Some(isize::from_be_bytes(second)));
    assert_eq!(data.get_usize_at(&disk, buf.len()), None);
}
