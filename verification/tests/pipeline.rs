use kidfile::archive_formats::Archive;
use kidfile::error::DecodeError;
use kidfile::file_data::{Disk, FileData};
use kidfile::image::{Pixel, PixelFormat};
use kidfile::registry::{archive_decoders, data_decoders, image_decoders, Decoder, DynData};
use kidfile::{auto_decode_full, auto_decode_step, decode_step, Certainty, StepError, MAX_STEPS};

fn put(buf: &mut Vec<u8>, at: usize, bytes: &[u8]) {
    if buf.len() < at + bytes.len() {
        buf.resize(at + bytes.len(), 0);
    }
    buf[at..at + bytes.len()].copy_from_slice(bytes);
}

fn all_decoders() -> Vec<Decoder> {
    let mut all = archive_decoders();
    all.extend(image_decoders());
    all.extend(data_decoders());
    all
}

fn ogdt_image() -> Vec<u8> {
    let mut v: Vec<u8> = Vec::new();
    put(&mut v, 0, b"ogdt");
    put(&mut v, 8, &1u16.to_le_bytes());
    put(&mut v, 10, &1u16.to_le_bytes());
    put(&mut v, 12, &[1]);
    put(&mut v, 14, &[1]);
    put(&mut v, 32, &[10, 20, 30, 0x80]);
    v
}

fn cps_of(data: &[u8]) -> Vec<u8> {
    // the size in three bytes, then literal chunks of up to 128 bytes
    let size = data.len() as u32;
    let mut v: Vec<u8> = vec![(size >> 16) as u8, (size >> 8) as u8, size as u8];
    for chunk in data.chunks(128) {
        v.push((chunk.len() - 1) as u8);
        v.extend_from_slice(chunk);
    }
    v
}

fn lnk_of(name: &str, data: &[u8]) -> Vec<u8> {
    let mut v: Vec<u8> = Vec::new();
    put(&mut v, 0, b"LNK\0");
    put(&mut v, 4, &1u32.to_le_bytes());
    put(&mut v, 16, &0u32.to_le_bytes());
    put(&mut v, 20, &((data.len() as u32) << 1).to_le_bytes());
    put(&mut v, 24, name.as_bytes());
    v.resize(48, 0);
    v.extend_from_slice(data);
    v
}

fn afs_of(name: &str, data: &[u8]) -> Vec<u8> {
    let mut v: Vec<u8> = Vec::new();
    put(&mut v, 0, b"AFS\0");
    put(&mut v, 4, &1u32.to_le_bytes());
    put(&mut v, 8, &2048u32.to_le_bytes());
    put(&mut v, 12, &(data.len() as u32).to_le_bytes());
    put(&mut v, 2048, data);
    let names = (2048 + data.len() + 2047) / 2048 * 2048;
    put(&mut v, names, name.as_bytes());
    v.resize(names + 48, 0);
    v
}

fn ids(steps: &[Decoder]) -> Vec<&'static str> {
    steps.iter().map(|d| d.id()).collect()
}

fn archive_of(data: DynData) -> Archive {
    match data {
        DynData::Archive(a) => a,
        other => panic!("not an archive: {:?}", other),
    }
}

#[test]
fn registries_keep_their_order() {
    assert_eq!(ids(&archive_decoders()), vec!["afs", "lnk", "concat2k", "databin"]);
    assert_eq!(
        ids(&image_decoders()),
        vec!["prt", "tim2", "ogdt", "gim", "klz", "bip", "pvr", "tim", "png", "jpeg", "bmp", "gif"]
    );
    assert_eq!(ids(&data_decoders()), vec!["lzss", "cps", "cps_pc", "lzss-be"]);
    assert_eq!(Decoder::Afs.desc(), "CRI AFS archive used in most KID games");
    assert_eq!(Decoder::LzssBe.desc(), "LZSS-like used in N7 DC and 12R PS2");
}

#[test]
fn every_decoder_answers_for_arbitrary_bytes() {
    let disk = Disk::new();
    let mut state: u32 = 0x1234_5678;
    for _ in 0..200 {
        let mut bytes = [0u8; 16];
        for b in bytes.iter_mut() {
            state = state.wrapping_mul(1664525).wrapping_add(1013904223);
            *b = (state >> 24) as u8;
        }
        for d in all_decoders() {
            let mut data = FileData::Memory { buf: bytes.to_vec() };
            let c = d.detect(&mut data, &disk);
            assert!(matches!(c, Certainty::Impossible | Certainty::Possible | Certainty::Certain));
            assert_eq!(data, FileData::Memory { buf: bytes.to_vec() });
            let _ = d.decode(&mut data, &disk);
        }
    }
}

#[test]
fn signatures_are_told_for_certain() {
    let disk = Disk::new();
    let cases: Vec<(Decoder, Vec<u8>)> = vec![
        (Decoder::Afs, b"AFS\0".to_vec()),
        (Decoder::Lnk, b"LNK\0".to_vec()),
        (Decoder::Prt, b"PRT\0".to_vec()),
        (Decoder::Ogdt, b"ogdt".to_vec()),
        (Decoder::Gim, b"MIG.00.1PSP\0".to_vec()),
        (Decoder::Tim2, b"TIM2".to_vec()),
        (Decoder::Pvr, b"PVRT".to_vec()),
        (Decoder::Pvr, b"PVPL".to_vec()),
        (Decoder::Png, b"\x89PNG\x0d\x0a\x1a\x0a".to_vec()),
        (Decoder::Jpeg, vec![0xFF, 0xD8, 0xFF]),
        (Decoder::Bmp, b"BM".to_vec()),
        (Decoder::Gif, b"GIF89a".to_vec()),
        (Decoder::Gif, b"GIF87a".to_vec()),
        (Decoder::CpsPc, b"CPS\0".to_vec()),
        (Decoder::Cps, b"\0\0\0\0ogdt".to_vec()),
        (Decoder::Cps, b"\0\0\0\0TIM2".to_vec()),
        (Decoder::Bip, vec![5, 0, 0, 0]),
        (Decoder::Bip, vec![10, 0, 0, 0]),
        (Decoder::Tim, vec![16, 0, 0, 0, 8, 0, 0, 0]),
    ];
    for (d, bytes) in cases {
        let mut data = FileData::Memory { buf: bytes.clone() };
        assert_eq!(d.detect(&mut data, &disk), Certainty::Certain, "{}", d.id());
        let mut cut = FileData::Memory { buf: bytes[..bytes.len() - 1].to_vec() };
        assert_eq!(d.detect(&mut cut, &disk), Certainty::Impossible, "{}", d.id());
    }
}

#[test]
fn signatures_at_other_places() {
    let disk = Disk::new();
    let mut prt = vec![0u8; 16];
    prt.extend_from_slice(b"PRT\0");
    assert_eq!(Decoder::Prt.detect(&mut FileData::Memory { buf: prt }, &disk), Certainty::Certain);
    let mut gbix = b"GBIX".to_vec();
    gbix.resize(16, 0);
    gbix.extend_from_slice(b"PVRT");
    assert_eq!(Decoder::Pvr.detect(&mut FileData::Memory { buf: gbix }, &disk), Certainty::Certain);
    let mut klz = b"TIM2".to_vec();
    put(&mut klz, 0x40, b"PNGFILE3");
    assert_eq!(Decoder::Klz.detect(&mut FileData::Memory { buf: klz.clone() }, &disk), Certainty::Certain);
    assert_eq!(Decoder::Tim2.detect(&mut FileData::Memory { buf: klz.clone() }, &disk), Certainty::Impossible);
    klz[0x47] = b'2';
    assert_eq!(Decoder::Klz.detect(&mut FileData::Memory { buf: klz.clone() }, &disk), Certainty::Impossible);
    assert_eq!(Decoder::Tim2.detect(&mut FileData::Memory { buf: klz }, &disk), Certainty::Certain);
}

#[test]
fn size_headers_are_a_guess_or_a_certainty() {
    let disk = Disk::new();
    let mut le = 40u32.to_le_bytes().to_vec();
    le.resize(33, 0);
    assert_eq!(Decoder::Lzss.detect(&mut FileData::Memory { buf: le.clone() }, &disk), Certainty::Possible);
    assert_eq!(Decoder::LzssBe.detect(&mut FileData::Memory { buf: le.clone() }, &disk), Certainty::Impossible);
    le.truncate(32);
    assert_eq!(Decoder::Lzss.detect(&mut FileData::Memory { buf: le }, &disk), Certainty::Impossible);
    let mut be = 40u32.to_be_bytes().to_vec();
    be.resize(33, 0);
    assert_eq!(Decoder::LzssBe.detect(&mut FileData::Memory { buf: be.clone() }, &disk), Certainty::Certain);
    assert_eq!(Decoder::Lzss.detect(&mut FileData::Memory { buf: be }, &disk), Certainty::Impossible);
}

#[test]
fn guessing_decoders_are_never_certain() {
    let disk = Disk::new();
    let mut state: u32 = 99;
    for len in [0usize, 3, 4, 33, 100, 5000] {
        let mut bytes = vec![0u8; len];
        for b in bytes.iter_mut() {
            state = state.wrapping_mul(1664525).wrapping_add(1013904223);
            *b = (state >> 24) as u8;
        }
        for d in [Decoder::Lzss, Decoder::Concat2k] {
            assert_ne!(d.detect(&mut FileData::Memory { buf: bytes.clone() }, &disk), Certainty::Certain);
        }
    }
}

#[test]
fn nested_archives_are_decoded_level_by_level() {
    let disk = Disk::new();
    let inner = cps_of(&ogdt_image());
    let middle = lnk_of("picture.cps", &inner);
    let outer = afs_of("inner.lnk", &middle);

    let mut top = FileData::Memory { buf: outer };
    let first = auto_decode_full(&mut top, &disk, None);
    assert_eq!(first.error, None);
    assert_eq!(first.error_msg(), "");
    assert_eq!(ids(&first.steps_taken), vec!["afs"]);
    let archive = archive_of(first.data);
    assert_eq!(archive.format, Decoder::Afs);
    assert_eq!(archive.entries.len(), 1);
    assert_eq!(archive.entries[0].name, "inner.lnk");

    let mut child = archive.entries[0].data.duplicate();
    let second = auto_decode_full(&mut child, &disk, Some(archive.format));
    assert_eq!(ids(&second.steps_taken), vec!["lnk"]);
    let archive = archive_of(second.data);
    assert_eq!(archive.entries.len(), 1);
    assert_eq!(archive.entries[0].name, "picture.cps");
    assert_eq!(archive.entries[0].data, FileData::Memory { buf: inner });

    let mut leaf = archive.entries[0].data.duplicate();
    let third = auto_decode_full(&mut leaf, &disk, Some(archive.format));
    assert_eq!(third.error, None);
    assert_eq!(ids(&third.steps_taken), vec!["cps", "ogdt"]);
    match third.data {
        DynData::Image(image) => {
            assert_eq!(image.frames.len(), 1);
            let f = &image.frames[0];
            assert_eq!((f.width, f.height, f.og_fmt), (1, 1, PixelFormat::Rgba));
            assert_eq!(f.pixels, vec![Pixel { r: 10, g: 20, b: 30, a: 0xFF }]);
            assert_eq!(f.as_rgba_bytes().len(), 4);
        },
        other => panic!("not an image: {:?}", other),
    }
}

#[test]
fn a_step_takes_the_first_format_that_is_certain() {
    let disk = Disk::new();
    let mut data = FileData::Memory { buf: cps_of(&ogdt_image()) };
    let (d, out) = auto_decode_step(&mut data, &disk, None, None).unwrap();
    assert_eq!(d, Decoder::Cps);
    assert_eq!(out, DynData::Raw(FileData::Memory { buf: ogdt_image() }));
    // the format that has just been used is not used again
    let mut again = FileData::Memory { buf: cps_of(&ogdt_image()) };
    assert_eq!(auto_decode_step(&mut again, &disk, Some(Decoder::Cps), None), Err(StepError::NoDecoder));
    assert_eq!(StepError::NoDecoder.message(), "could not fully decode file");
}

#[test]
fn a_failure_of_a_certain_format_ends_the_step() {
    let disk = Disk::new();
    let mut broken = FileData::Memory { buf: b"ogdt\0\0\0\0\x01".to_vec() };
    let got = auto_decode_step(&mut broken, &disk, None, None);
    let expected = StepError::Failed { decoder: Decoder::Ogdt, cause: DecodeError::OgdtWidth };
    assert_eq!(got, Err(expected));
    assert_eq!(expected.message(), "error from ogdt: could not read width");
    let unspecified = StepError::Failed { decoder: Decoder::LzssBe, cause: DecodeError::LzssBeHeader };
    assert_eq!(unspecified.message(), "unspecified error from lzss-be");
    assert_eq!(StepError::TooManySteps.message(), "too many decoding steps");
}

#[test]
fn decoding_stops_at_bytes_that_no_format_takes() {
    let disk = Disk::new();
    let mut data = FileData::Memory { buf: vec![1, 2, 3] };
    let result = auto_decode_full(&mut data, &disk, None);
    assert_eq!(result.data, DynData::Raw(FileData::Memory { buf: vec![1, 2, 3] }));
    assert_eq!(result.steps_taken, vec![]);
    assert_eq!(result.error, Some(StepError::NoDecoder));
    assert_eq!(result.error_msg(), "could not fully decode file");
}

#[test]
fn decoding_keeps_the_bytes_reached_before_a_failure() {
    let disk = Disk::new();
    // a compressed stream whose content claims to be an image and is none
    let content = b"ogdt\0\0\0\0\x01".to_vec();
    let mut data = FileData::Memory { buf: cps_of(&content) };
    let result = auto_decode_full(&mut data, &disk, None);
    assert_eq!(ids(&result.steps_taken), vec!["cps"]);
    assert_eq!(result.data, DynData::Raw(FileData::Memory { buf: content }));
    assert_eq!(result.error_msg(), "error from ogdt: could not read width");
}

fn lzss_be_of(data: &[u8]) -> Vec<u8> {
    // the size, then one chunk of literals, eight to a flag byte
    let mut body: Vec<u8> = Vec::new();
    for group in data.chunks(8) {
        body.push(0x00);
        body.extend_from_slice(group);
    }
    let mut v = (data.len() as u32).to_be_bytes().to_vec();
    v.extend_from_slice(&(body.len() as u16).to_be_bytes());
    v.extend_from_slice(&body);
    v
}

#[test]
fn no_two_steps_in_a_row_are_of_the_same_format() {
    let disk = Disk::new();
    // a compressed stream of a compressed stream of the same format
    let once = lzss_be_of(&[b'z'; 40]);
    let twice = lzss_be_of(&once);
    assert_eq!(Decoder::LzssBe.detect(&mut FileData::Memory { buf: once.clone() }, &disk), Certainty::Certain);
    assert_eq!(Decoder::LzssBe.detect(&mut FileData::Memory { buf: twice.clone() }, &disk), Certainty::Certain);
    let mut data = FileData::Memory { buf: twice };
    let result = auto_decode_full(&mut data, &disk, None);
    // the second layer is of the format of the first, and the same decoder may not take it
    assert_eq!(ids(&result.steps_taken), vec!["lzss-be"]);
    assert_eq!(result.data, DynData::Raw(FileData::Memory { buf: once.clone() }));
    assert_eq!(result.error, Some(StepError::NoDecoder));
    for pair in result.steps_taken.windows(2) {
        assert_ne!(pair[0], pair[1]);
    }
    assert!(result.steps_taken.len() <= MAX_STEPS);
    // asked on its own, the second layer is taken
    let mut inner = FileData::Memory { buf: once };
    let result = auto_decode_full(&mut inner, &disk, None);
    assert_eq!(ids(&result.steps_taken), vec!["lzss-be"]);
    assert_eq!(result.data, DynData::Raw(FileData::Memory { buf: vec![b'z'; 40] }));
}

#[test]
fn inside_an_archive_no_archive_is_guessed() {
    let disk = Disk::new();
    let mut blob: Vec<u8> = vec![0x11; 6144];
    put(&mut blob, 2048, b"TIM2");
    put(&mut blob, 4096, b"TIM2");
    let archives = archive_decoders();
    let mut free = FileData::Memory { buf: blob.clone() };
    let found = decode_step(&mut free, &disk, &archives, None, false).unwrap();
    assert_eq!(found.map(|f| f.0), Some(Decoder::Concat2k));
    let mut inside = FileData::Memory { buf: blob.clone() };
    assert_eq!(decode_step(&mut inside, &disk, &archives, None, true), Ok(None));
    let mut leaf = FileData::Memory { buf: blob };
    let result = auto_decode_full(&mut leaf, &disk, Some(Decoder::Afs));
    assert_eq!(result.steps_taken, vec![]);
    assert_eq!(result.error, Some(StepError::NoDecoder));
}

#[test]
fn a_streamed_file_is_decoded_from_the_disk() {
    let mut disk = Disk::new();
    disk.add("pictures/a.ogdt".to_string(), ogdt_image());
    let mut data = FileData::Stream { path: "pictures/a.ogdt".to_string(), start: 0, size: ogdt_image().len() };
    let result = auto_decode_full(&mut data, &disk, None);
    assert_eq!(ids(&result.steps_taken), vec!["ogdt"]);
    assert!(matches!(result.data, DynData::Image(_)));
    assert_eq!(data, FileData::Memory { buf: ogdt_image() });
    let mut missing = FileData::Stream { path: "pictures/b.ogdt".to_string(), start: 0, size: 10 };
    let result = auto_decode_full(&mut missing, &disk, None);
    assert_eq!(result.error, Some(StepError::NoDecoder));
    assert_eq!(result.data, DynData::Raw(missing.duplicate()));
}

#[test]
fn tim2_file_is_decoded_by_the_tim2_decoder() {
    let disk = Disk::new();
    let mut image = vec![0u8; 128 * 4];
    put(&mut image, 0, &[0xFF, 0x00, 0x00, 0xFF]);
    put(&mut image, 4, &[0x00, 0xFF, 0x00, 0xFF]);
    put(&mut image, 16 * 4, &[0x00, 0x00, 0xFF, 0xFF]);
    put(&mut image, 17 * 4, &[0xFF, 0xFF, 0xFF, 0xFF]);
    let mut file: Vec<u8> = b"TIM2".to_vec();
    file.extend_from_slice(&[4, 0, 1, 0]);
    file.extend_from_slice(&[0u8; 8]);
    let mut header = vec![0u8; 48];
    put(&mut header, 0, &((48 + image.len()) as u32).to_le_bytes());
    put(&mut header, 8, &(image.len() as u32).to_le_bytes());
    put(&mut header, 12, &48u16.to_le_bytes());
    put(&mut header, 14, &1u16.to_le_bytes());
    header[19] = 3;
    put(&mut header, 20, &2u16.to_le_bytes());
    put(&mut header, 22, &2u16.to_le_bytes());
    file.extend_from_slice(&header);
    file.extend_from_slice(&image);
    let mut data = FileData::Memory { buf: file };
    let result = auto_decode_full(&mut data, &disk, None);
    assert_eq!(result.error, None);
    assert_eq!(ids(&result.steps_taken), vec!["tim2"]);
    match result.data {
        DynData::Image(image) => {
            let f = &image.frames[0];
            assert_eq!((f.width, f.height), (2, 2));
            assert_eq!(
                f.as_rgba_bytes(),
                vec![0xFF, 0, 0, 0xFF, 0, 0xFF, 0, 0xFF, 0, 0, 0xFF, 0xFF, 0xFF, 0xFF, 0xFF, 0xFF]
            );
        },
        other => panic!("not an image: {:?}", other),
    }
}

#[test]
fn decoded_values_convert_into_what_a_step_gives() {
    let bytes = FileData::Memory { buf: vec![1, 2, 3] };
    assert_eq!(DynData::from(bytes.clone()), DynData::Raw(bytes.clone()));
    assert_eq!(DynData::from(vec![1u8, 2, 3]), DynData::Raw(bytes));
    let image = kidfile::image::Image { frames: vec![kidfile::image::Frame::empty(1, 1, kidfile::image::PixelFormat::Rgba)] };
    assert_eq!(DynData::from(image.clone()), DynData::Image(image));
    let archive = kidfile::archive_formats::Archive { format: Decoder::Afs, entries: vec![] };
    assert_eq!(DynData::from(archive.clone()), DynData::Archive(archive));
}

#[test]
fn a_certain_image_is_taken_before_a_possible_archive() {
    // an image of one pixel, with the signature again at the next multiple of 2048
    let mut bytes = vec![0u8; 6144];
    bytes[0..4].copy_from_slice(b"ogdt");
    bytes[8] = 1;
    bytes[10] = 1;
    bytes[12] = 1;
    bytes[14] = 1;
    bytes[32..36].copy_from_slice(&[0x10, 0x20, 0x30, 0x80]);
    bytes[2048..2052].copy_from_slice(b"ogdt");
    let disk = Disk::new();
    let mut data = FileData::Memory { buf: bytes.clone() };
    assert_eq!(Decoder::Concat2k.detect(&mut data, &disk), Certainty::Possible);
    assert_eq!(Decoder::Ogdt.detect(&mut data, &disk), Certainty::Certain);
    let (format, found) = auto_decode_step(&mut data, &disk, None, None).unwrap();
    assert_eq!(format, Decoder::Ogdt);
    match found {
        DynData::Image(image) => {
            assert_eq!(image.frames.len(), 1);
            assert_eq!((image.frames[0].width, image.frames[0].height), (1, 1));
            assert_eq!(image.frames[0].as_rgba_bytes(), vec![0x10, 0x20, 0x30, 0xFF]);
        }
        _ => panic!("an image was owed"),
    }
    // the archive formats alone find the archive
    let mut data = FileData::Memory { buf: bytes };
    let alone = decode_step(&mut data, &disk, &archive_decoders(), None, false).unwrap();
    assert_eq!(alone.map(|f| f.0), Some(Decoder::Concat2k));
}
