use kidfile::error::DecodeError;
use kidfile::file_data::{Decompressor, Disk, FileData};

fn counting(n: usize) -> Vec<u8> {
    (0..n).map(|i| i as u8).collect()
}

fn disk_with(path: &str, bytes: Vec<u8>) -> Disk {
    let mut disk = Disk::new();
    disk.add(path.to_string(), bytes);
    disk
}

fn stream(path: &str, start: usize, size: usize) -> FileData {
    FileData::Stream { path: path.to_string(), start, size }
}

#[test]
fn memory_source() {
    let disk = Disk::new();
    let mut f = FileData::Memory { buf: counting(10) };
    assert_eq!(f.len(), 10);
    assert!(f.starts_with(&disk, &[0, 1, 2]));
    assert!(f.starts_with_at(&disk, &[4, 5], 4));
    assert!(!f.starts_with_at(&disk, &[4, 5], 9));
    assert_eq!(f.read(&disk).unwrap(), &counting(10)[..]);
    let mut chunk = [0u8; 3];
    assert_eq!(f.read_chunk_exact(&disk, &mut chunk, 7), Ok(()));
    assert_eq!(chunk, [7, 8, 9]);
    let mut kept = [0xAAu8; 3];
    assert_eq!(f.read_chunk_exact(&disk, &mut kept, 8), Err(()));
    assert_eq!(kept, [0xAA; 3]);
    assert_eq!(f.read_chunk_exact(&disk, &mut kept, usize::MAX), Err(()));
}

#[test]
fn typed_reads() {
    let disk = Disk::new();
    let mut f = FileData::Memory { buf: vec![0x01, 0x02, 0x03, 0x04, 0xFF, 0xFF] };
    assert_eq!(f.read_u16(&disk, 0), Ok(0x0201));
    assert_eq!(f.read_u32_be(&disk, 0), Ok(0x0102_0304));
    assert_eq!(f.get_u32_at(&disk, 2), Some(0xFFFF_0403));
    assert_eq!(f.read_i16(&disk, 4), Ok(-1));
    assert_eq!(f.read_u8(&disk, 5), Ok(0xFF));
    assert_eq!(f.read_u32(&disk, 3), Err(DecodeError::ReadField));
    assert_eq!(f.get_u64_at(&disk, 0), None);
    assert_eq!(DecodeError::ReadField.message(), "error reading field");
}

#[test]
fn streamed_source_is_probed_without_being_loaded() {
    let disk = disk_with("dir/a.bin", counting(100));
    let mut f = stream("dir/a.bin", 10, 20);
    assert_eq!(f.len(), 20);
    assert!(f.starts_with(&disk, &[10, 11, 12, 13]));
    assert!(f.starts_with_at(&disk, &[28, 29], 18));
    assert!(!f.starts_with_at(&disk, &[29, 30], 19));
    assert!(!f.starts_with(&disk, &[0, 1]));
    assert_eq!(f, stream("dir/a.bin", 10, 20));
    let mut chunk = [0u8; 4];
    assert_eq!(f.read_chunk_exact(&disk, &mut chunk, 16), Ok(()));
    assert_eq!(chunk, [26, 27, 28, 29]);
    assert_eq!(f.read_chunk_exact(&disk, &mut chunk, 17), Err(()));
    assert_eq!(f.read_u16_be(&disk, 0), Ok(0x0A0B));
    assert_eq!(f, stream("dir/a.bin", 10, 20));
}

#[test]
fn streamed_source_is_loaded_by_a_full_read() {
    let disk = disk_with("a.bin", counting(100));
    let mut f = stream("a.bin", 10, 20);
    assert_eq!(f.read(&disk).unwrap(), &counting(100)[10..30]);
    assert_eq!(f, FileData::Memory { buf: counting(100)[10..30].to_vec() });
    assert_eq!(f.read(&disk).unwrap(), &counting(100)[10..30]);
}

#[test]
fn file_that_cannot_be_read() {
    let disk = disk_with("a.bin", counting(25));
    let mut missing = stream("b.bin", 0, 4);
    assert_eq!(missing.read(&disk), Err(DecodeError::Io));
    assert_eq!(missing, stream("b.bin", 0, 4));
    assert!(!missing.starts_with(&disk, &[0]));
    let mut chunk = [0u8; 2];
    assert_eq!(missing.read_chunk_exact(&disk, &mut chunk, 0), Err(()));
    let mut too_long = stream("a.bin", 10, 20);
    assert_eq!(too_long.read(&disk), Err(DecodeError::Io));
    assert!(too_long.starts_with(&disk, &[10, 11]));
    assert!(!too_long.starts_with_at(&disk, &[24, 25], 14));
    assert_eq!(too_long.load(&disk), Err(DecodeError::Io));
    assert_eq!(DecodeError::Io.message(), "could not read the file of a streamed source");
}

#[test]
fn subfile_of_a_streamed_source_is_another_window() {
    let disk = disk_with("a.bin", counting(100));
    let mut f = stream("a.bin", 10, 20);
    let sub = f.subfile(&disk, 5, 4).unwrap();
    assert_eq!(sub, stream("a.bin", 15, 4));
    assert_eq!(f, stream("a.bin", 10, 20));
    let whole = f.subfile(&disk, 0, 20).unwrap();
    assert_eq!(whole, stream("a.bin", 10, 20));
    let none = f.subfile(&disk, 20, 0).unwrap();
    assert_eq!(none, stream("a.bin", 30, 0));
    assert_eq!(f.subfile(&disk, 17, 4), Err(DecodeError::SubfileRange));
    assert_eq!(f.subfile(&disk, usize::MAX, 2), Err(DecodeError::SubfileRange));
    assert_eq!(DecodeError::SubfileRange.message(), "subfile request is beyond file end");
}

#[test]
fn subfile_of_a_source_in_memory_is_a_copy() {
    let disk = Disk::new();
    let mut f = FileData::Memory { buf: counting(10) };
    assert_eq!(f.subfile(&disk, 3, 4), Ok(FileData::Memory { buf: vec![3, 4, 5, 6] }));
    assert_eq!(f.subfile(&disk, 10, 0), Ok(FileData::Memory { buf: vec![] }));
    assert_eq!(f.subfile(&disk, 8, 3), Err(DecodeError::SubfileRange));
}

#[test]
fn subfile_holds_the_bytes_of_its_part() {
    let disk = disk_with("a.bin", counting(200));
    let sources: Vec<FileData> = vec![FileData::Memory { buf: counting(60) }, stream("a.bin", 100, 60)];
    for source in sources {
        for (start, size) in [(0usize, 60usize), (7, 13), (59, 1), (60, 0), (0, 0)] {
            let mut f = source.duplicate();
            let mut sub = f.subfile(&disk, start, size).unwrap();
            let part = sub.read(&disk).unwrap().to_vec();
            let whole = f.read(&disk).unwrap().to_vec();
            assert_eq!(part, whole[start..start + size].to_vec());
        }
    }
}

fn packed_be(text: &[u8]) -> Vec<u8> {
    // one chunk of literals, eight to a flag byte
    let mut body: Vec<u8> = Vec::new();
    for group in text.chunks(8) {
        body.push(0x00);
        body.extend_from_slice(group);
    }
    let mut v = (body.len() as u16).to_be_bytes().to_vec();
    v.extend_from_slice(&body);
    v
}

#[test]
fn compressed_source_is_unpacked_on_first_read() {
    let disk = Disk::new();
    let text = b"the quick brown fox".to_vec();
    let packed = FileData::MemoryCompressed {
        buf: packed_be(&text),
        full_size: text.len(),
        decompress: Decompressor::LzssBe,
    };
    let mut probed = packed.duplicate();
    assert_eq!(probed.len(), text.len());
    assert!(probed.starts_with(&disk, b"the "));
    assert_eq!(probed, packed);
    let mut chunked = packed.duplicate();
    let mut chunk = [0u8; 5];
    assert_eq!(chunked.read_chunk_exact(&disk, &mut chunk, 4), Ok(()));
    assert_eq!(&chunk, b"quick");
    assert_eq!(chunked, FileData::Memory { buf: text.clone() });
    let mut beyond = packed.duplicate();
    assert_eq!(beyond.read_chunk_exact(&disk, &mut chunk, 15), Err(()));
    assert_eq!(beyond, packed);
    let mut read = packed.duplicate();
    assert_eq!(read.read(&disk).unwrap(), &text[..]);
    let mut sub = packed.duplicate();
    assert_eq!(sub.subfile(&disk, 10, 5), Ok(FileData::Memory { buf: b"brown".to_vec() }));
}

#[test]
fn streamed_compressed_source() {
    let text = b"0123456789abcdef".to_vec();
    let mut file = vec![0xEEu8; 7];
    let payload = packed_be(&text);
    file.extend_from_slice(&payload);
    let disk = disk_with("p.bin", file);
    let packed = FileData::StreamCompressed {
        path: "p.bin".to_string(),
        start: 7,
        size: payload.len(),
        full_size: text.len(),
        decompress: Decompressor::LzssBe,
    };
    let mut f = packed.duplicate();
    assert_eq!(f.len(), 16);
    assert!(f.starts_with_at(&disk, b"abc", 10));
    assert_eq!(f, packed);
    assert_eq!(f.get_u8_at(&disk, 15), Some(b'f'));
    assert_eq!(f, FileData::Memory { buf: text.clone() });
    let mut lost = packed.duplicate();
    assert_eq!(lost.read(&Disk::new()), Err(DecodeError::Io));
    assert_eq!(lost.settle(&Disk::new()), Err(DecodeError::Io));
    assert_eq!(lost, packed);
}

#[test]
fn payload_that_does_not_unpack_gives_no_bytes() {
    let disk = Disk::new();
    let mut f = FileData::MemoryCompressed {
        buf: vec![0x00, 0x02, 0x00, b'x'],
        full_size: 9,
        decompress: Decompressor::LzssBe,
    };
    assert_eq!(f.len(), 9);
    assert_eq!(Decompressor::LzssBe.run(&[0x00, 0x02, 0x00, b'x'], 9), Vec::<u8>::new());
    assert_eq!(Decompressor::LzssBe.run(&[0x00, 0x02, 0x00, b'x'], 1), vec![b'x']);
    assert_eq!(Decompressor::LzssDc.run(&[0x00, 0x02, 0x00, b'x'], 1), vec![b'x']);
    assert_eq!(Decompressor::Lzss.run(&[0x01, b'x'], 1), vec![b'x']);
    assert_eq!(f.get_u8_at(&disk, 0), None);
    assert_eq!(f, FileData::Memory { buf: vec![] });
}

#[test]
fn first_file_of_a_path_is_the_one_found() {
    let mut disk = Disk::new();
    disk.add("x".to_string(), vec![1]);
    disk.add("y".to_string(), vec![2, 3]);
    disk.add("x".to_string(), vec![4]);
    assert_eq!(disk.find(b"x"), Some(0));
    assert_eq!(disk.find(b"y"), Some(1));
    assert_eq!(disk.find(b"z"), None);
    assert_eq!(disk.read_region(b"y", 1, 1), Some(&[3u8][..]));
    assert_eq!(disk.read_region(b"y", 1, 2), None);
    assert_eq!(disk.read_region(b"y", 2, 0), Some(&[][..]));
}
