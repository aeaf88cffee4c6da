use crate::archive_formats::{
    archive_outcome,
    field_name,
    name_from_field,
    settled,
    source_u16,
    source_u32,
    Archive,
    ArchiveEntry,
    ArchiveEntryView,
    ArchiveView,
    entry_views,
};
use crate::error::DecodeError;
use crate::file_data::{Disk, FileData, FileDataView};
use crate::registry::Decoder;
use crate::Certainty;
use vstd::prelude::*;

verus! {

/// The next multiple of 2048 at or after `n`.
pub open spec fn sector_aligned(n: int) -> int {
    ((n + 2047) / 2048) * 2048
}

/// The end of the data: the largest end among the entries of the index from `i` on
/// and `end`. Entry `k` has its offset at `8 + 8 k` and its length after it.
pub open spec fn afs_data_end(v: FileDataView, disk: Disk, i: int, count: int, end: int) -> Result<
    int,
    DecodeError,
>
    decreases count - i,
{
    if i >= count {
        Ok(end)
    } else {
        match (source_u32(v, disk, 8 + 8 * i), source_u32(v, disk, 12 + 8 * i)) {
            (Some(offset), Some(len)) => afs_data_end(
                v,
                disk,
                i + 1,
                count,
                if offset + len > end {
                    offset + len
                } else {
                    end
                },
            ),
            _ => Err(DecodeError::ReadField),
        }
    }
}

/// Entry `i`: its name and its six date fields from the record of 48 bytes at
/// `names + 48 i`, its data from the range that the index gives.
pub open spec fn afs_entry(v: FileDataView, disk: Disk, names: int, i: int) -> Result<
    ArchiveEntryView,
    DecodeError,
> {
    let pos = names + 48 * i;
    match v.chunk(disk, pos, 32) {
        None => Err(DecodeError::NameRead),
        Some(field) => match (
            source_u16(v, disk, pos + 32),
            source_u16(v, disk, pos + 34),
            source_u16(v, disk, pos + 36),
            source_u16(v, disk, pos + 38),
            source_u16(v, disk, pos + 40),
            source_u16(v, disk, pos + 42),
        ) {
            (Some(year), Some(month), Some(day), Some(hour), Some(minute), Some(second)) => {
                match field_name(field) {
                    Err(e) => Err(e),
                    Ok(name) => match v.subfile(
                        disk,
                        source_u32(v, disk, 8 + 8 * i)->Some_0 as int,
                        source_u32(v, disk, 12 + 8 * i)->Some_0 as int,
                    ) {
                        None => Err(DecodeError::SubfileRange),
                        Some(data) => Ok(
                            ArchiveEntryView {
                                data,
                                name,
                                timestamp: Some((year, month, day, hour, minute, second)),
                                is_compressed: false,
                            },
                        ),
                    },
                }
            },
            _ => Err(DecodeError::ReadField),
        },
    }
}

/// `acc` followed by the entries from `i` on, or the first failure among them.
pub open spec fn afs_entries(
    v: FileDataView,
    disk: Disk,
    names: int,
    i: int,
    count: int,
    acc: Seq<ArchiveEntryView>,
) -> Result<Seq<ArchiveEntryView>, DecodeError>
    decreases count - i,
{
    if i >= count {
        Ok(acc)
    } else {
        match afs_entry(v, disk, names, i) {
            Err(e) => Err(e),
            Ok(entry) => afs_entries(v, disk, names, i + 1, count, acc.push(entry)),
        }
    }
}

/// What a source that has been read once decodes to, given the entry count.
pub open spec fn afs_archive(v: FileDataView, disk: Disk, count: u32) -> Result<
    ArchiveView,
    DecodeError,
> {
    if count >= 0xFFFF {
        Err(DecodeError::EntryCount)
    } else {
        match afs_data_end(v, disk, 0, count as int, 0) {
            Err(e) => Err(e),
            Ok(end) => match afs_entries(
                v,
                disk,
                sector_aligned(end),
                0,
                count as int,
                Seq::empty(),
            ) {
                Err(e) => Err(e),
                Ok(entries) => Ok(ArchiveView { format: Decoder::Afs, entries }),
            },
        }
    }
}

/// What a source decodes to: the entry count at offset 4, the index of offsets and
/// lengths from offset 8, and the table of names and dates at the next multiple of
/// 2048 after the end of the data.
pub open spec fn afs_decoded(v: FileDataView, disk: Disk) -> Result<ArchiveView, DecodeError> {
    match source_u32(v, disk, 4) {
        None => Err(DecodeError::ReadField),
        Some(count) => afs_archive(v.after_chunk(disk, 4, 4), disk, count),
    }
}

/// Whether a source is of this format: it starts with the four bytes `AFS` and zero.
pub open spec fn afs_detected(v: FileDataView, disk: Disk) -> Certainty {
    if v.probe(disk, 0, 4) == Some(seq![0x41u8, 0x46u8, 0x53u8, 0u8]) {
        Certainty::Certain
    } else {
        Certainty::Impossible
    }
}

/// Tells whether a source is of this format.
pub fn detect(file: &mut FileData, disk: &Disk) -> (r: Certainty)
    ensures
        r == afs_detected(old(file)@, *disk),
        final(file)@ == old(file)@,
{
    let magic: [u8; 4] = [0x41, 0x46, 0x53, 0];
    assert(magic@ =~= seq![0x41u8, 0x46u8, 0x53u8, 0u8]);
    Certainty::certain_if(file.starts_with(disk, magic.as_slice()))
}

/// Reads entry `i`, whose data the index places at `offset` with `len` bytes.
fn read_entry(file: &mut FileData, disk: &Disk, names: u64, i: u32, offset: u32, len: u32) -> (r:
    Result<ArchiveEntry, DecodeError>)
    requires
        settled(old(file)@),
        i < 0xFFFF,
        source_u32(old(file)@, *disk, 8 + 8 * i) == Some(offset),
        source_u32(old(file)@, *disk, 12 + 8 * i) == Some(len),
    ensures
        final(file)@ == old(file)@,
        match afs_entry(old(file)@, *disk, names as int, i as int) {
            Ok(entry) => r matches Ok(e) && e@ == entry,
            Err(e) => r matches Err(e2) && e2 == e,
        },
{
    let total: usize = file.len();
    if names > total as u64 || i as u64 * 48 > total as u64 - names {
        return Err(DecodeError::NameRead);
    }
    let pos: usize = names as usize + i as usize * 48;
    let mut field: Vec<u8> = vec![0u8; 32];
    match file.read_chunk_exact(disk, field.as_mut_slice(), pos) {
        Ok(()) => {},
        Err(()) => {
            return Err(DecodeError::NameRead);
        },
    }
    let year: u16 = file.read_u16(disk, pos + 32)?;
    let month: u16 = file.read_u16(disk, pos + 34)?;
    let day: u16 = file.read_u16(disk, pos + 36)?;
    let hour: u16 = file.read_u16(disk, pos + 38)?;
    let minute: u16 = file.read_u16(disk, pos + 40)?;
    let second: u16 = file.read_u16(disk, pos + 42)?;
    let name: String = name_from_field(field.as_slice())?;
    let data: FileData = file.subfile(disk, offset as usize, len as usize)?;
    Ok(
        ArchiveEntry {
            data,
            name,
            timestamp: Some((year, month, day, hour, minute, second)),
            is_compressed: false,
        },
    )
}

/// Reads the index: the offset and the length of each entry, and the end of the data.
fn read_index(file: &mut FileData, disk: &Disk, count: u32) -> (r: Result<
    (Vec<(u32, u32)>, u64),
    DecodeError,
>)
    requires
        settled(old(file)@),
        count < 0xFFFF,
    ensures
        final(file)@ == old(file)@,
        r matches Ok(index) ==> index.1 <= 2 * 0xFFFF_FFFF,
        match afs_data_end(old(file)@, *disk, 0, count as int, 0) {
            Ok(end) => r matches Ok(index) && index.1 == end && index.0@.len() == count && forall|
                k: int,
            |
                0 <= k < count ==> source_u32(old(file)@, *disk, 8 + 8 * k) == Some(
                    (#[trigger] index.0@[k]).0,
                ) && source_u32(old(file)@, *disk, 12 + 8 * k) == Some(index.0@[k].1),
            Err(e) => r matches Err(e2) && e2 == e,
        },
{
    let ghost v = file@;
    let mut ranges: Vec<(u32, u32)> = Vec::new();
    let mut end: u64 = 0;
    let mut i: u32 = 0;
    while i < count
        invariant
            i <= count < 0xFFFF,
            file@ == v,
            v == old(file)@,
            settled(v),
            ranges@.len() == i,
            afs_data_end(v, *disk, i as int, count as int, end as int) == afs_data_end(
                v,
                *disk,
                0,
                count as int,
                0,
            ),
            end <= 2 * 0xFFFF_FFFF,
            forall|k: int|
                0 <= k < i ==> source_u32(v, *disk, 8 + 8 * k) == Some((#[trigger] ranges@[k]).0)
                    && source_u32(v, *disk, 12 + 8 * k) == Some(ranges@[k].1),
        decreases count - i,
    {
        let offset: u32 = file.read_u32(disk, 8 + i as usize * 8)?;
        let len: u32 = file.read_u32(disk, 12 + i as usize * 8)?;
        if offset as u64 + len as u64 > end {
            end = offset as u64 + len as u64;
        }
        ranges.push((offset, len));
        i += 1;
    }
    Ok((ranges, end))
}

/// Reads the entries whose data the index places at `ranges`.
fn read_entries(file: &mut FileData, disk: &Disk, names: u64, ranges: &Vec<(u32, u32)>) -> (r:
    Result<Vec<ArchiveEntry>, DecodeError>)
    requires
        settled(old(file)@),
        ranges@.len() < 0xFFFF,
        forall|k: int|
            0 <= k < ranges@.len() ==> source_u32(old(file)@, *disk, 8 + 8 * k) == Some(
                (#[trigger] ranges@[k]).0,
            ) && source_u32(old(file)@, *disk, 12 + 8 * k) == Some(ranges@[k].1),
    ensures
        final(file)@ == old(file)@,
        match afs_entries(
            old(file)@,
            *disk,
            names as int,
            0,
            ranges@.len() as int,
            Seq::empty(),
        ) {
            Ok(entries) => r matches Ok(found) && entry_views(found@) == entries,
            Err(e) => r matches Err(e2) && e2 == e,
        },
{
    let ghost v = file@;
    let count: usize = ranges.len();
    let mut entries: Vec<ArchiveEntry> = Vec::new();
    assert(entry_views(entries@) =~= Seq::empty());
    let mut i: usize = 0;
    while i < count
        invariant
            i <= count < 0xFFFF,
            count == ranges@.len(),
            entries@.len() == i,
            file@ == v,
            v == old(file)@,
            settled(v),
            forall|k: int|
                0 <= k < ranges@.len() ==> source_u32(v, *disk, 8 + 8 * k) == Some(
                    (#[trigger] ranges@[k]).0,
                ) && source_u32(v, *disk, 12 + 8 * k) == Some(ranges@[k].1),
            afs_entries(
                v,
                *disk,
                names as int,
                i as int,
                count as int,
                entry_views(entries@),
            ) == afs_entries(v, *disk, names as int, 0, count as int, Seq::empty()),
        decreases count - i,
    {
        let range: (u32, u32) = ranges[i];
        let entry: ArchiveEntry = read_entry(file, disk, names, i as u32, range.0, range.1)?;
        let ghost before = entries@;
        entries.push(entry);
        proof {
            assert(entry_views(entries@) =~= entry_views(before).push(entries@[i as int]@));
        }
        i += 1;
    }
    Ok(entries)
}

/// Reads the index and the name table of a source.
pub fn decode(file: &mut FileData, disk: &Disk) -> (r: Result<Archive, DecodeError>)
    ensures
        archive_outcome(r) == afs_decoded(old(file)@, *disk),
        final(file)@ == old(file)@.after_chunk(*disk, 4, 4),
{
    let count: u32 = file.read_u32(disk, 4)?;
    if count >= 0xFFFF {
        return Err(DecodeError::EntryCount);
    }
    let index = read_index(file, disk, count)?;
    let names: u64 = ((index.1 + 2047) / 2048) * 2048;
    let entries: Vec<ArchiveEntry> = read_entries(file, disk, names, &index.0)?;
    Ok(Archive { format: Decoder::Afs, entries })
}

} // verus!
