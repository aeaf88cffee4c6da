use crate::archive_formats::{
    archive_outcome,
    entry_views,
    settled,
    Archive,
    ArchiveEntry,
    ArchiveEntryView,
    ArchiveView,
};
use crate::byte_slice::ByteSlice;
use crate::error::DecodeError;
use crate::file_data::{Disk, FileData, FileDataView};
use crate::text::{decimal, decimal_digits};
use crate::registry::Decoder;
use crate::Certainty;
use vstd::prelude::*;

verus! {

/// The distance from one place where a file may start to the next.
pub const ALIGNMENT: usize = 2048;

/// The four bytes `ogdt`.
pub open spec fn ogdt_magic() -> Seq<u8> {
    seq![0x6Fu8, 0x67u8, 0x64u8, 0x74u8]
}

/// The four bytes `TIM2`.
pub open spec fn tim2_magic() -> Seq<u8> {
    seq![0x54u8, 0x49u8, 0x4Du8, 0x32u8]
}

/// Whether one of the two image signatures stands at the start of `buf` or four bytes in.
pub open spec fn has_signature(buf: Seq<u8>) -> bool {
    ||| buf.len() >= 4 && buf.subrange(0, 4) == ogdt_magic()
    ||| buf.len() >= 8 && buf.subrange(4, 8) == ogdt_magic()
    ||| buf.len() >= 4 && buf.subrange(0, 4) == tim2_magic()
    ||| buf.len() >= 8 && buf.subrange(4, 8) == tim2_magic()
}

/// Tells whether one of the two image signatures stands at the start of `buf` or four bytes in.
pub fn check_signature(buf: &[u8]) -> (r: bool)
    ensures
        r == has_signature(buf@),
{
    let ogdt: [u8; 4] = [0x6F, 0x67, 0x64, 0x74];
    let tim2: [u8; 4] = [0x54, 0x49, 0x4D, 0x32];
    assert(ogdt@ =~= ogdt_magic());
    assert(tim2@ =~= tim2_magic());
    buf.starts_with_at(ogdt.as_slice(), 0) || buf.starts_with_at(ogdt.as_slice(), 4)
        || buf.starts_with_at(tim2.as_slice(), 0) || buf.starts_with_at(tim2.as_slice(), 4)
}

/// The entry number `index`, which holds the `len` bytes at `start`. Its name is its number.
pub open spec fn concat2k_entry(v: FileDataView, disk: Disk, index: int, start: int, len: int) -> Result<
    ArchiveEntryView,
    DecodeError,
> {
    match v.subfile(disk, start, len) {
        None => Err(DecodeError::SubfileRange),
        Some(data) => Ok(
            ArchiveEntryView {
                data,
                name: decimal_digits(index as nat),
                timestamp: None,
                is_compressed: false,
            },
        ),
    }
}

/// The distance from `boundary` to the end of the source, or zero beyond it.
pub open spec fn left(v: FileDataView, boundary: int) -> int {
    if boundary < v.len() {
        v.len() - boundary
    } else {
        0
    }
}

/// `acc` followed by the entries that a scan from `boundary` on finds, where the
/// entry being scanned began at `start`. Every 2048 bytes the next eight bytes are
/// read: a signature there ends the entry and begins the next. Where they cannot be
/// read, the rest of the source is the last entry. Fewer than two entries are a failure.
pub open spec fn concat2k_scan(
    v: FileDataView,
    disk: Disk,
    boundary: int,
    start: int,
    acc: Seq<ArchiveEntryView>,
) -> Result<Seq<ArchiveEntryView>, DecodeError>
    decreases left(v, boundary),
{
    match v.chunk(disk, boundary, 8) {
        None => match concat2k_entry(v, disk, acc.len() as int, start, v.len() - start) {
            Err(e) => Err(e),
            Ok(entry) => if acc.len() + 1 > 1 {
                Ok(acc.push(entry))
            } else {
                Err(DecodeError::Concat2kSingle)
            },
        },
        Some(probe) => if boundary < 0 {
            Err(DecodeError::SubfileRange)
        } else if has_signature(probe) {
            match concat2k_entry(v, disk, acc.len() as int, start, boundary - start) {
                Err(e) => Err(e),
                Ok(entry) => concat2k_scan(v, disk, boundary + 2048, boundary, acc.push(entry)),
            }
        } else {
            concat2k_scan(v, disk, boundary + 2048, start, acc)
        },
    }
}

/// What a source decodes to, once a compressed payload has been unpacked.
pub open spec fn concat2k_decoded(v: FileDataView, disk: Disk) -> Result<ArchiveView, DecodeError> {
    let s = v.settled(disk);
    if !settled(s) {
        Err(DecodeError::Io)
    } else {
        match concat2k_scan(s, disk, 2048, 0, Seq::empty()) {
            Err(e) => Err(e),
            Ok(entries) => Ok(ArchiveView { format: Decoder::Concat2k, entries }),
        }
    }
}

/// Whether a signature stands at `boundary` or at a later multiple of 2048 before the
/// first place where eight bytes cannot be read.
pub open spec fn concat2k_found(v: FileDataView, disk: Disk, boundary: int) -> bool
    decreases left(v, boundary),
{
    match v.chunk(disk, boundary, 8) {
        None => false,
        Some(probe) => boundary >= 0 && (has_signature(probe) || concat2k_found(
            v,
            disk,
            boundary + 2048,
        )),
    }
}

/// The start of an MPEG program stream, which is never taken for an archive.
pub open spec fn mpeg_magic() -> Seq<u8> {
    seq![0u8, 0u8, 1u8, 0xBAu8]
}

/// Whether a source may be of this format: it is longer than 4096 bytes, does not
/// start like an MPEG program stream, and holds a signature at a multiple of 2048.
pub open spec fn concat2k_detected(v: FileDataView, disk: Disk) -> Certainty {
    if v.len() > 4096 && v.probe(disk, 0, 4) != Some(mpeg_magic()) && settled(v.settled(disk))
        && concat2k_found(v.settled(disk), disk, 2048) {
        Certainty::Possible
    } else {
        Certainty::Impossible
    }
}

/// The source after it has been probed: a compressed payload has been unpacked,
/// unless the length or the start of the source ruled the format out before.
pub open spec fn concat2k_probed(v: FileDataView, disk: Disk) -> FileDataView {
    if v.len() > 4096 && v.probe(disk, 0, 4) != Some(mpeg_magic()) {
        v.settled(disk)
    } else {
        v
    }
}

/// Tells whether a source may be of this format.
#[verifier::loop_isolation(false)]
pub fn detect(file: &mut FileData, disk: &Disk) -> (r: Certainty)
    ensures
        r == concat2k_detected(old(file)@, *disk),
        final(file)@ == concat2k_probed(old(file)@, *disk),
{
    let mpeg: [u8; 4] = [0, 0, 1, 0xBA];
    assert(mpeg@ =~= mpeg_magic());
    if !(file.len() > ALIGNMENT * 2) {
        return Certainty::Impossible;
    }
    if file.starts_with(disk, mpeg.as_slice()) {
        return Certainty::Impossible;
    }
    match file.settle(disk) {
        Ok(()) => {},
        Err(_) => {
            return Certainty::Impossible;
        },
    }
    let ghost v = file@;
    let total: usize = file.len();
    let mut boundary: u128 = ALIGNMENT as u128;
    loop
        invariant
            file@ == v,
            ALIGNMENT <= boundary <= total + ALIGNMENT,
            concat2k_found(v, *disk, boundary as int) == concat2k_found(v, *disk, 2048),
        decreases left(v, boundary as int),
    {
        if total < 8 || boundary > (total - 8) as u128 {
            return Certainty::Impossible;
        }
        let mut probe: Vec<u8> = vec![0u8; 8];
        match file.read_chunk_exact(disk, probe.as_mut_slice(), boundary as usize) {
            Ok(()) => {},
            Err(()) => {
                return Certainty::Impossible;
            },
        }
        if check_signature(probe.as_slice()) {
            return Certainty::Possible;
        }
        boundary += ALIGNMENT as u128;
    }
}

/// Makes the entry number `index` of the `len` bytes at `start`.
fn make_entry(file: &mut FileData, disk: &Disk, index: usize, start: usize, len: usize) -> (r: Result<
    ArchiveEntry,
    DecodeError,
>)
    requires
        settled(old(file)@),
    ensures
        final(file)@ == old(file)@,
        match concat2k_entry(old(file)@, *disk, index as int, start as int, len as int) {
            Ok(entry) => r matches Ok(e) && e@ == entry,
            Err(e) => r matches Err(e2) && e2 == e,
        },
{
    let data: FileData = file.subfile(disk, start, len)?;
    Ok(ArchiveEntry { data, name: decimal(index as u64), timestamp: None, is_compressed: false })
}

/// Splits a source at the signatures found at multiples of 2048.
#[verifier::loop_isolation(false)]
pub fn decode(file: &mut FileData, disk: &Disk) -> (r: Result<Archive, DecodeError>)
    ensures
        archive_outcome(r) == concat2k_decoded(old(file)@, *disk),
        final(file)@ == old(file)@.settled(*disk),
{
    file.settle(disk)?;
    let ghost v = file@;
    let total: usize = file.len();
    let mut entries: Vec<ArchiveEntry> = Vec::new();
    assert(entry_views(entries@) =~= Seq::empty());
    let mut start: usize = 0;
    let mut boundary: u128 = ALIGNMENT as u128;
    loop
        invariant
            file@ == v,
            start < boundary <= total + ALIGNMENT,
            start <= total,
            concat2k_scan(v, *disk, boundary as int, start as int, entry_views(entries@))
                == concat2k_scan(v, *disk, 2048, 0, Seq::empty()),
        decreases left(v, boundary as int),
    {
        let mut probe: Vec<u8> = vec![0u8; 8];
        let found: bool = if total < 8 || boundary > (total - 8) as u128 {
            false
        } else {
            match file.read_chunk_exact(disk, probe.as_mut_slice(), boundary as usize) {
                Ok(()) => true,
                Err(()) => false,
            }
        };
        if !found {
            let entry: ArchiveEntry = make_entry(file, disk, entries.len(), start, total - start)?;
            let ghost before = entries@;
            entries.push(entry);
            proof {
                assert(entry_views(entries@) =~= entry_views(before).push(
                    entries@[before.len() as int]@,
                ));
            }
            if entries.len() > 1 {
                return Ok(Archive { format: Decoder::Concat2k, entries });
            } else {
                return Err(DecodeError::Concat2kSingle);
            }
        }
        if check_signature(probe.as_slice()) {
            let entry: ArchiveEntry = make_entry(
                file,
                disk,
                entries.len(),
                start,
                boundary as usize - start,
            )?;
            let ghost before = entries@;
            entries.push(entry);
            proof {
                assert(entry_views(entries@) =~= entry_views(before).push(
                    entries@[before.len() as int]@,
                ));
            }
            start = boundary as usize;
        }
        boundary += ALIGNMENT as u128;
    }
}

} // verus!
