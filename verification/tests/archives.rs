use kidfile::archive_formats::{afs, concat2k, infdatabin, lnk, Archive};
use kidfile::error::DecodeError;
use kidfile::file_data::{Disk, FileData};
use kidfile::registry::Decoder;
use kidfile::Certainty;

fn put(buf: &mut Vec<u8>, at: usize, bytes: &[u8]) {
    if buf.len() < at + bytes.len() {
        buf.resize(at + bytes.len(), 0);
    }
    buf[at..at + bytes.len()].copy_from_slice(bytes);
}

fn afs_with_one_entry() -> Vec<u8> {
    let mut v: Vec<u8> = Vec::new();
    put(&mut v, 0, b"AFS\0");
    put(&mut v, 4, &1u32.to_le_bytes());
    put(&mut v, 8, &2048u32.to_le_bytes());
    put(&mut v, 12, &4u32.to_le_bytes());
    put(&mut v, 2048, &[0xDE, 0xAD, 0xBE, 0xEF]);
    put(&mut v, 4096, b"A.bin");
    for (k, field) in [2001u16, 1, 2, 3, 4, 5].iter().enumerate() {
        put(&mut v, 4096 + 32 + 2 * k, &field.to_le_bytes());
    }
    v.resize(4096 + 48, 0);
    v
}

#[test]
fn afs_archive_with_one_entry() {
    let disk = Disk::new();
    let mut file = FileData::Memory { buf: afs_with_one_entry() };
    assert_eq!(afs::detect(&mut file, &disk), Certainty::Certain);
    let archive: Archive = afs::decode(&mut file, &disk).unwrap();
    assert_eq!(archive.format, Decoder::Afs);
    assert_eq!(archive.format.id(), "afs");
    assert_eq!(archive.entries.len(), 1);
    let entry = &archive.entries[0];
    assert_eq!(entry.name, "A.bin");
    assert_eq!(entry.data, FileData::Memory { buf: vec![0xDE, 0xAD, 0xBE, 0xEF] });
    assert_eq!(entry.timestamp, Some((2001, 1, 2, 3, 4, 5)));
    assert!(!entry.is_compressed);
}

#[test]
fn afs_entries_of_a_streamed_archive_are_windows() {
    let mut disk = Disk::new();
    disk.add("game/data.afs".to_string(), afs_with_one_entry());
    let mut file =
        FileData::Stream { path: "game/data.afs".to_string(), start: 0, size: 4096 + 48 };
    let archive = afs::decode(&mut file, &disk).unwrap();
    assert_eq!(
        archive.entries[0].data,
        FileData::Stream { path: "game/data.afs".to_string(), start: 2048, size: 4 }
    );
    assert!(matches!(file, FileData::Stream { .. }));
}

#[test]
fn afs_failures() {
    let disk = Disk::new();
    let mut not_afs = FileData::Memory { buf: b"LNK\0\0\0\0\0".to_vec() };
    assert_eq!(afs::detect(&mut not_afs, &disk), Certainty::Impossible);
    let mut short = FileData::Memory { buf: b"AFS\0\x01".to_vec() };
    assert_eq!(afs::decode(&mut short, &disk), Err(DecodeError::ReadField));
    let mut many = afs_with_one_entry();
    put(&mut many, 4, &0xFFFFu32.to_le_bytes());
    let got = afs::decode(&mut FileData::Memory { buf: many }, &disk);
    assert_eq!(got, Err(DecodeError::EntryCount));
    assert_eq!(got.unwrap_err().message(), "impossibly large entry count");
    let mut no_names = afs_with_one_entry();
    no_names.truncate(4096 + 31);
    assert_eq!(
        afs::decode(&mut FileData::Memory { buf: no_names }, &disk),
        Err(DecodeError::NameRead)
    );
    let mut no_date = afs_with_one_entry();
    no_date.truncate(4096 + 43);
    assert_eq!(
        afs::decode(&mut FileData::Memory { buf: no_date }, &disk),
        Err(DecodeError::ReadField)
    );
    let mut bad_name = afs_with_one_entry();
    put(&mut bad_name, 4096, &[0xFF, 0xFE]);
    assert_eq!(
        afs::decode(&mut FileData::Memory { buf: bad_name }, &disk),
        Err(DecodeError::NameUtf8)
    );
}

fn lnk_with_one_entry(raw_len: u32, data: &[u8]) -> Vec<u8> {
    let mut v: Vec<u8> = Vec::new();
    put(&mut v, 0, b"LNK\0");
    put(&mut v, 4, &1u32.to_le_bytes());
    put(&mut v, 16, &0u32.to_le_bytes());
    put(&mut v, 20, &raw_len.to_le_bytes());
    put(&mut v, 24, b"x.bin");
    v.resize(48, 0);
    v.extend_from_slice(data);
    v
}

#[test]
fn lnk_entry_keeps_its_compression_flag() {
    let disk = Disk::new();
    let raw_len: u32 = (4 << 1) | 1;
    let mut file = FileData::Memory { buf: lnk_with_one_entry(raw_len, &[9, 8, 7, 6]) };
    assert_eq!(lnk::detect(&mut file, &disk), Certainty::Certain);
    let archive = lnk::decode(&mut file, &disk).unwrap();
    assert_eq!(archive.format.id(), "lnk");
    assert_eq!(archive.entries.len(), 1);
    assert_eq!(archive.entries[0].name, "x.bin");
    assert_eq!(archive.entries[0].data.len(), (raw_len >> 1) as usize);
    assert_eq!(archive.entries[0].data, FileData::Memory { buf: vec![9, 8, 7, 6] });
    assert!(archive.entries[0].is_compressed);
    assert_eq!(archive.entries[0].timestamp, None);
    let mut plain = FileData::Memory { buf: lnk_with_one_entry(4 << 1, &[9, 8, 7, 6]) };
    assert!(!lnk::decode(&mut plain, &disk).unwrap().entries[0].is_compressed);
}

#[test]
fn lnk_failures() {
    let disk = Disk::new();
    let mut cut = lnk_with_one_entry(8, &[1, 2, 3]);
    assert_eq!(
        lnk::decode(&mut FileData::Memory { buf: cut.clone() }, &disk),
        Err(DecodeError::SubfileRange)
    );
    cut.truncate(47);
    assert_eq!(
        lnk::decode(&mut FileData::Memory { buf: cut.clone() }, &disk),
        Err(DecodeError::NameRead)
    );
    cut.truncate(22);
    assert_eq!(
        lnk::decode(&mut FileData::Memory { buf: cut }, &disk),
        Err(DecodeError::ReadField)
    );
    let mut many = lnk_with_one_entry(8, &[1, 2, 3, 4]);
    put(&mut many, 4, &70000u32.to_le_bytes());
    assert_eq!(
        lnk::decode(&mut FileData::Memory { buf: many }, &disk),
        Err(DecodeError::EntryCount)
    );
    let mut name = lnk_with_one_entry(8, &[1, 2, 3, 4]);
    put(&mut name, 24, &[b'a'; 24]);
    let full = lnk::decode(&mut FileData::Memory { buf: name }, &disk).unwrap();
    assert_eq!(full.entries[0].name, "a".repeat(24));
    assert_eq!(DecodeError::NameRead.message(), "could not read entry name");
    assert_eq!(DecodeError::NameUtf8.message(), "entry name is not valid UTF-8");
}

#[test]
fn signatures_for_concatenated_files() {
    assert!(concat2k::check_signature(b"ogdt\0\0\0\0"));
    assert!(concat2k::check_signature(b"\0\0\0\0TIM2"));
    assert!(concat2k::check_signature(b"TIM2"));
    assert!(!concat2k::check_signature(b"\0\0\0\0TIM"));
    assert!(!concat2k::check_signature(b"\0ogdt\0\0\0"));
    assert!(!concat2k::check_signature(b""));
}

#[test]
fn concatenated_files_are_split_at_signatures() {
    let disk = Disk::new();
    let mut v: Vec<u8> = vec![0x11; 6144];
    put(&mut v, 2048, b"TIM2");
    put(&mut v, 4096 + 4, b"ogdt");
    let mut file = FileData::Memory { buf: v.clone() };
    assert_eq!(concat2k::detect(&mut file, &disk), Certainty::Possible);
    let archive = concat2k::decode(&mut file, &disk).unwrap();
    assert_eq!(archive.format.id(), "concat2k");
    let names: Vec<&str> = archive.entries.iter().map(|e| e.name.as_str()).collect();
    assert_eq!(names, vec!["0", "1", "2"]);
    assert_eq!(archive.entries[0].data, FileData::Memory { buf: v[0..2048].to_vec() });
    assert_eq!(archive.entries[1].data, FileData::Memory { buf: v[2048..4096].to_vec() });
    assert_eq!(archive.entries[2].data, FileData::Memory { buf: v[4096..].to_vec() });
}

#[test]
fn blob_without_signatures_is_no_archive() {
    let disk = Disk::new();
    let mut blob = FileData::Memory { buf: vec![0x5A; 3000] };
    assert_eq!(concat2k::detect(&mut blob, &disk), Certainty::Impossible);
    let got = concat2k::decode(&mut blob, &disk);
    assert_eq!(got, Err(DecodeError::Concat2kSingle));
    assert_eq!(got.unwrap_err().message(), "could not find multiple entries");
    let mut long = FileData::Memory { buf: vec![0x5A; 9000] };
    assert_eq!(concat2k::detect(&mut long, &disk), Certainty::Impossible);
    assert_eq!(concat2k::decode(&mut long, &disk), Err(DecodeError::Concat2kSingle));
}

#[test]
fn concatenated_files_need_length_and_no_mpeg_start() {
    let disk = Disk::new();
    let mut v: Vec<u8> = vec![0; 4096];
    put(&mut v, 2048, b"ogdt");
    assert_eq!(concat2k::detect(&mut FileData::Memory { buf: v.clone() }, &disk), Certainty::Impossible);
    v.push(0);
    assert_eq!(concat2k::detect(&mut FileData::Memory { buf: v.clone() }, &disk), Certainty::Possible);
    put(&mut v, 0, &[0, 0, 1, 0xBA]);
    assert_eq!(concat2k::detect(&mut FileData::Memory { buf: v }, &disk), Certainty::Impossible);
}

fn companion(names: &[&str]) -> Vec<u8> {
    let index = 0x523E8usize;
    let entries = 0xEFCusize;
    let names_at = index + 12 * entries;
    let mut v: Vec<u8> = vec![0; names_at + 255 * (names.len() + 1)];
    for (k, name) in names.iter().enumerate() {
        put(&mut v, names_at + 255 * (k + 1), name.as_bytes());
    }
    for i in 0..entries {
        let which = if i < names.len() { i + 1 } else { 0 };
        let pointer = (names_at + 255 * which) as u32 + 0x8000F800;
        put(&mut v, index + 12 * i, &pointer.to_le_bytes());
        put(&mut v, index + 12 * i + 4, &(i as u32).to_le_bytes());
        put(&mut v, index + 12 * i + 8, &(100 + i as u32).to_le_bytes());
    }
    v
}

#[test]
fn archive_with_its_index_in_a_companion_file() {
    let mut disk = Disk::new();
    disk.add("disc/DATA.BIN".to_string(), vec![0; 16]);
    disk.add("disc/slps_026.69".to_string(), companion(&["first", "second"]));
    let mut file = FileData::Stream { path: "disc/DATA.BIN".to_string(), start: 0, size: 16 };
    assert_eq!(infdatabin::detect(&mut file, &disk), Certainty::Certain);
    let archive = infdatabin::decode(&mut file, &disk).unwrap();
    assert_eq!(archive.format.id(), "databin");
    assert_eq!(archive.entries.len(), 0xEFC);
    let mut first = "first".to_string();
    first.push_str(&"\0".repeat(250));
    assert_eq!(archive.entries[0].name, first);
    assert_eq!(archive.entries[1].name.trim_end_matches('\0'), "second");
    assert_eq!(archive.entries[2].name.trim_end_matches('\0'), "");
    assert_eq!(
        archive.entries[3].data,
        FileData::Stream { path: "disc/DATA.BIN".to_string(), start: 3 * 2048, size: 103 }
    );
}

#[test]
fn archive_without_companion_is_not_told() {
    let mut disk = Disk::new();
    disk.add("disc/data.bin".to_string(), vec![0; 16]);
    let mut file = FileData::Stream { path: "disc/data.bin".to_string(), start: 0, size: 16 };
    assert_eq!(infdatabin::detect(&mut file, &disk), Certainty::Impossible);
    let got = infdatabin::decode(&mut file, &disk);
    assert_eq!(got, Err(DecodeError::DatabinNoCompanion));
    assert_eq!(got.unwrap_err().message(), "data.bin must be accompanied by slps_026.69");
    disk.add("other/slps_026.69".to_string(), companion(&[]));
    assert_eq!(infdatabin::detect(&mut file, &disk), Certainty::Impossible);
    let mut other = FileData::Stream { path: "disc/data.bim".to_string(), start: 0, size: 16 };
    assert_eq!(infdatabin::detect(&mut other, &disk), Certainty::Impossible);
    let got = infdatabin::decode(&mut other, &disk);
    assert_eq!(got, Err(DecodeError::DatabinNotDataBin));
    assert_eq!(got.unwrap_err().message(), "not a data.bin file");
    let mut memory = FileData::Memory { buf: vec![0; 16] };
    assert_eq!(infdatabin::detect(&mut memory, &disk), Certainty::Impossible);
    assert_eq!(infdatabin::decode(&mut memory, &disk), Err(DecodeError::DatabinNotDataBin));
}

#[test]
fn companion_failures() {
    let mut disk = Disk::new();
    disk.add("slps_026.69".to_string(), vec![0; 0x523E8 + 11]);
    let mut file = FileData::Stream { path: "data.bin".to_string(), start: 0, size: 0 };
    assert_eq!(infdatabin::detect(&mut file, &disk), Certainty::Certain);
    let got = infdatabin::decode(&mut file, &disk);
    assert_eq!(got, Err(DecodeError::DatabinRead));
    assert_eq!(got.unwrap_err().message(), "error while reading slps_026.69");
    let mut bad = companion(&["ok"]);
    let names_at = 0x523E8 + 12 * 0xEFC;
    put(&mut bad, names_at + 255, &[0xC0, 0x00]);
    let mut disk2 = Disk::new();
    disk2.add("d\\slps_026.69".to_string(), bad);
    let mut file2 = FileData::Stream { path: "d\\Data.Bin".to_string(), start: 0, size: 0 };
    let got = infdatabin::decode(&mut file2, &disk2);
    assert_eq!(got, Err(DecodeError::DatabinName));
    assert_eq!(got.unwrap_err().message(), "error while reading entry name from data.bin");
}
