use crate::archive_formats::{
    archive_outcome,
    entry_views,
    field_name,
    name_from_field,
    settled,
    source_u32,
    Archive,
    ArchiveEntry,
    ArchiveEntryView,
    ArchiveView,
};
use crate::error::DecodeError;
use crate::file_data::{Disk, FileData, FileDataView};
use crate::registry::Decoder;
use crate::Certainty;
use vstd::prelude::*;

verus! {

/// Entry `i` of an archive of `count` entries. Its record of 32 bytes at `16 + 32 i`
/// holds the offset of its data within the data section, then twice the length of
/// the data with the compression flag in the lowest bit, then its name in 24 bytes.
/// The data section follows the records.
pub open spec fn lnk_entry(v: FileDataView, disk: Disk, count: int, i: int) -> Result<
    ArchiveEntryView,
    DecodeError,
> {
    let record = 16 + 32 * i;
    match (source_u32(v, disk, record), source_u32(v, disk, record + 4)) {
        (Some(offset), Some(raw_len)) => match v.chunk(disk, record + 8, 24) {
            None => Err(DecodeError::NameRead),
            Some(field) => match field_name(field) {
                Err(e) => Err(e),
                Ok(name) => match v.subfile(disk, 16 + 32 * count + offset, raw_len as int / 2) {
                    None => Err(DecodeError::SubfileRange),
                    Some(data) => Ok(
                        ArchiveEntryView {
                            data,
                            name,
                            timestamp: None,
                            is_compressed: raw_len % 2 == 1,
                        },
                    ),
                },
            },
        },
        _ => Err(DecodeError::ReadField),
    }
}

/// `acc` followed by the entries from `i` on, or the first failure among them.
pub open spec fn lnk_entries(
    v: FileDataView,
    disk: Disk,
    i: int,
    count: int,
    acc: Seq<ArchiveEntryView>,
) -> Result<Seq<ArchiveEntryView>, DecodeError>
    decreases count - i,
{
    if i >= count {
        Ok(acc)
    } else {
        match lnk_entry(v, disk, count, i) {
            Err(e) => Err(e),
            Ok(entry) => lnk_entries(v, disk, i + 1, count, acc.push(entry)),
        }
    }
}

/// What a source decodes to: the entry count at offset 4, then the records.
pub open spec fn lnk_decoded(v: FileDataView, disk: Disk) -> Result<ArchiveView, DecodeError> {
    match source_u32(v, disk, 4) {
        None => Err(DecodeError::ReadField),
        Some(count) => if count >= 0xFFFF {
            Err(DecodeError::EntryCount)
        } else {
            match lnk_entries(v.after_chunk(disk, 4, 4), disk, 0, count as int, Seq::empty()) {
                Err(e) => Err(e),
                Ok(entries) => Ok(ArchiveView { format: Decoder::Lnk, entries }),
            }
        },
    }
}

/// Whether a source is of this format: it starts with the four bytes `LNK` and zero.
pub open spec fn lnk_detected(v: FileDataView, disk: Disk) -> Certainty {
    if v.probe(disk, 0, 4) == Some(seq![0x4Cu8, 0x4Eu8, 0x4Bu8, 0u8]) {
        Certainty::Certain
    } else {
        Certainty::Impossible
    }
}

/// Tells whether a source is of this format.
pub fn detect(file: &mut FileData, disk: &Disk) -> (r: Certainty)
    ensures
        r == lnk_detected(old(file)@, *disk),
        final(file)@ == old(file)@,
{
    let magic: [u8; 4] = [0x4C, 0x4E, 0x4B, 0];
    assert(magic@ =~= seq![0x4Cu8, 0x4Eu8, 0x4Bu8, 0u8]);
    Certainty::certain_if(file.starts_with(disk, magic.as_slice()))
}

/// Reads entry `i` of `count`.
fn read_entry(file: &mut FileData, disk: &Disk, count: u32, i: u32) -> (r: Result<
    ArchiveEntry,
    DecodeError,
>)
    requires
        settled(old(file)@),
        i < count < 0xFFFF,
    ensures
        final(file)@ == old(file)@,
        match lnk_entry(old(file)@, *disk, count as int, i as int) {
            Ok(entry) => r matches Ok(e) && e@ == entry,
            Err(e) => r matches Err(e2) && e2 == e,
        },
{
    let record: usize = 16 + 32 * i as usize;
    let offset: u32 = file.read_u32(disk, record)?;
    let raw_len: u32 = file.read_u32(disk, record + 4)?;
    let mut field: Vec<u8> = vec![0u8; 24];
    match file.read_chunk_exact(disk, field.as_mut_slice(), record + 8) {
        Ok(()) => {},
        Err(()) => {
            return Err(DecodeError::NameRead);
        },
    }
    let name: String = name_from_field(field.as_slice())?;
    let start: u64 = 16 + 32 * count as u64 + offset as u64;
    let total: usize = file.len();
    if start > total as u64 {
        return Err(DecodeError::SubfileRange);
    }
    let data: FileData = file.subfile(disk, start as usize, (raw_len / 2) as usize)?;
    Ok(ArchiveEntry { data, name, timestamp: None, is_compressed: raw_len % 2 == 1 })
}

/// Reads the records of a source.
pub fn decode(file: &mut FileData, disk: &Disk) -> (r: Result<Archive, DecodeError>)
    ensures
        archive_outcome(r) == lnk_decoded(old(file)@, *disk),
        final(file)@ == old(file)@.after_chunk(*disk, 4, 4),
{
    let count: u32 = file.read_u32(disk, 4)?;
    if count >= 0xFFFF {
        return Err(DecodeError::EntryCount);
    }
    let ghost v = file@;
    let mut entries: Vec<ArchiveEntry> = Vec::new();
    assert(entry_views(entries@) =~= Seq::empty());
    let mut i: u32 = 0;
    while i < count
        invariant
            i <= count < 0xFFFF,
            entries@.len() == i,
            file@ == v,
            v == old(file)@.after_chunk(*disk, 4, 4),
            settled(v),
            source_u32(old(file)@, *disk, 4) == Some(count),
            lnk_entries(v, *disk, i as int, count as int, entry_views(entries@)) == lnk_entries(
                v,
                *disk,
                0,
                count as int,
                Seq::empty(),
            ),
        decreases count - i,
    {
        let entry: ArchiveEntry = read_entry(file, disk, count, i)?;
        let ghost before = entries@;
        entries.push(entry);
        proof {
            assert(entry_views(entries@) =~= entry_views(before).push(entries@[i as int]@));
        }
        i += 1;
    }
    Ok(Archive { format: Decoder::Lnk, entries })
}

} // verus!
