use crate::archive_formats::{
    archive_outcome,
    entry_views,
    string_from_utf8,
    Archive,
    ArchiveEntry,
    ArchiveEntryView,
    ArchiveView,
};
use crate::byte_slice::{fits, le_u32, ByteSlice};
use crate::error::DecodeError;
use crate::file_data::{path_key, Disk, FileData, FileDataView};
use crate::registry::Decoder;
use crate::Certainty;
use vstd::prelude::*;
use vstd::utf8::{decode_utf8, valid_utf8};

verus! {

/// Where the index starts in the companion file.
pub const INDEX_START: usize = 0x523E8;

/// The number of entries of the index.
pub const INDEX_ENTRIES: usize = 0xEFC;

/// The address at which the companion file is loaded, less its header: what a name
/// pointer exceeds the position of the name by.
pub const NAME_BASE: u32 = 0x8000F800;

/// The length of a name field.
pub const NAME_LEN: usize = 255;

/// Whether a byte of a path separates directories: a slash or a backslash.
pub open spec fn is_separator(b: u8) -> bool {
    b == 0x2F || b == 0x5C
}

/// The length of the directory part of a path, its last separator included, among
/// the first `i` bytes.
pub open spec fn dir_len(path: Seq<u8>, i: int) -> int
    decreases i,
{
    if i <= 0 {
        0
    } else if is_separator(path[i - 1]) {
        i
    } else {
        dir_len(path, i - 1)
    }
}

/// An ASCII letter in lower case; any other byte as it is.
pub open spec fn ascii_lower(b: u8) -> u8 {
    if 0x41 <= b <= 0x5A {
        (b + 32) as u8
    } else {
        b
    }
}

/// The bytes of `data.bin`.
pub open spec fn data_bin_name() -> Seq<u8> {
    seq![0x64u8, 0x61u8, 0x74u8, 0x61u8, 0x2Eu8, 0x62u8, 0x69u8, 0x6Eu8]
}

/// The bytes of `slps_026.69`.
pub open spec fn companion_name() -> Seq<u8> {
    seq![0x73u8, 0x6Cu8, 0x70u8, 0x73u8, 0x5Fu8, 0x30u8, 0x32u8, 0x36u8, 0x2Eu8, 0x36u8, 0x39u8]
}

/// Whether the file that a path names is called `data.bin`, in any mix of cases.
pub open spec fn names_data_bin(path: Seq<u8>) -> bool {
    let name = path.skip(dir_len(path, path.len() as int));
    name.len() == 8 && forall|i: int| 0 <= i < 8 ==> ascii_lower(#[trigger] name[i]) == data_bin_name()[i]
}

/// The key of the companion file: in the same directory, called `slps_026.69`.
pub open spec fn companion_key(path: Seq<u8>) -> Seq<u8> {
    path.take(dir_len(path, path.len() as int)) + companion_name()
}

/// The path of a source that may be the archive: a window from the start of a file
/// called `data.bin`.
pub open spec fn databin_path(v: FileDataView) -> Option<Seq<char>> {
    match v {
        FileDataView::Stream { path, start, size } => if start == 0 && names_data_bin(
            path_key(path),
        ) {
            Some(path)
        } else {
            None
        },
        _ => None,
    }
}

/// Whether a source is of this format: it is a file called `data.bin`, and the
/// companion file is there.
pub open spec fn databin_detected(v: FileDataView, disk: Disk) -> Certainty {
    match databin_path(v) {
        Some(path) => if disk.file(companion_key(path_key(path))) is Some {
            Certainty::Certain
        } else {
            Certainty::Impossible
        },
        None => Certainty::Impossible,
    }
}

/// Entry `i`. Its record of twelve bytes in the companion file holds a pointer to its
/// name, the sector of 2048 bytes at which its data starts in the archive, and the
/// size of its data. The name is a field of 255 bytes, taken whole.
pub open spec fn databin_entry(companion: Seq<u8>, path: Seq<char>, i: int) -> Result<
    ArchiveEntryView,
    DecodeError,
> {
    let record = INDEX_START + 12 * i;
    let name_at = le_u32(companion, record) - NAME_BASE;
    let sector = le_u32(companion, record + 4);
    let size = le_u32(companion, record + 8);
    let name = companion.subrange(name_at, name_at + NAME_LEN);
    if !fits(companion, record, 12) || name_at < 0 || !fits(companion, name_at, NAME_LEN as int)
        || sector * 2048 > usize::MAX {
        Err(DecodeError::DatabinRead)
    } else if !valid_utf8(name) {
        Err(DecodeError::DatabinName)
    } else {
        Ok(
            ArchiveEntryView {
                data: FileDataView::Stream {
                    path,
                    start: (sector * 2048) as usize,
                    size: size as usize,
                },
                name: decode_utf8(name),
                timestamp: None,
                is_compressed: false,
            },
        )
    }
}

/// `acc` followed by the entries from `i` on, or the first failure among them.
pub open spec fn databin_entries(
    companion: Seq<u8>,
    path: Seq<char>,
    i: int,
    acc: Seq<ArchiveEntryView>,
) -> Result<Seq<ArchiveEntryView>, DecodeError>
    decreases INDEX_ENTRIES - i,
{
    if i >= INDEX_ENTRIES {
        Ok(acc)
    } else {
        match databin_entry(companion, path, i) {
            Err(e) => Err(e),
            Ok(entry) => databin_entries(companion, path, i + 1, acc.push(entry)),
        }
    }
}

/// What a source decodes to.
pub open spec fn databin_decoded(v: FileDataView, disk: Disk) -> Result<ArchiveView, DecodeError> {
    match databin_path(v) {
        None => Err(DecodeError::DatabinNotDataBin),
        Some(path) => match disk.file(companion_key(path_key(path))) {
            None => Err(DecodeError::DatabinNoCompanion),
            Some(companion) => match databin_entries(companion, path, 0, Seq::empty()) {
                Err(e) => Err(e),
                Ok(entries) => Ok(ArchiveView { format: Decoder::Databin, entries }),
            },
        },
    }
}

/// Puts an ASCII letter into lower case.
fn to_ascii_lower(b: u8) -> (r: u8)
    ensures
        r == ascii_lower(b),
{
    if 0x41 <= b && b <= 0x5A {
        b + 32
    } else {
        b
    }
}

/// The key of the companion of a file called `data.bin`, or `None` for any other path.
#[verifier::loop_isolation(false)]
fn companion_of(path: &[u8]) -> (r: Option<Vec<u8>>)
    ensures
        r is Some == names_data_bin(path@),
        r matches Some(key) ==> key@ == companion_key(path@),
{
    let mut dir: usize = path.len();
    while dir > 0 && !(path[dir - 1] == 0x2F || path[dir - 1] == 0x5C)
        invariant
            dir <= path@.len(),
            dir_len(path@, dir as int) == dir_len(path@, path@.len() as int),
        decreases dir,
    {
        dir -= 1;
    }
    assert(dir_len(path@, dir as int) == dir);
    let ghost name = path@.skip(dir as int);
    if path.len() - dir != 8 {
        return None;
    }
    let wanted: [u8; 8] = [0x64, 0x61, 0x74, 0x61, 0x2E, 0x62, 0x69, 0x6E];
    assert(wanted@ =~= data_bin_name());
    let mut i: usize = 0;
    while i < 8
        invariant
            i <= 8,
            dir + 8 == path@.len(),
            name == path@.skip(dir as int),
            wanted@ == data_bin_name(),
            forall|k: int| 0 <= k < i ==> ascii_lower(#[trigger] name[k]) == data_bin_name()[k],
        decreases 8 - i,
    {
        if to_ascii_lower(path[dir + i]) != wanted[i] {
            assert(ascii_lower(name[i as int]) != data_bin_name()[i as int]);
            return None;
        }
        i += 1;
    }
    let companion: [u8; 11] = [0x73, 0x6C, 0x70, 0x73, 0x5F, 0x30, 0x32, 0x36, 0x2E, 0x36, 0x39];
    assert(companion@ =~= companion_name());
    let mut key: Vec<u8> = Vec::new();
    key.extend_from_slice(&path[0..dir]);
    key.extend_from_slice(companion.as_slice());
    assert(key@ =~= companion_key(path@));
    Some(key)
}

/// Tells whether a source is of this format.
pub fn detect(file: &mut FileData, disk: &Disk) -> (r: Certainty)
    ensures
        r == databin_detected(old(file)@, *disk),
        final(file)@ == old(file)@,
{
    match file {
        FileData::Stream { path, start, size } => {
            if *start != 0 {
                return Certainty::Impossible;
            }
            match companion_of(path.as_str().as_bytes()) {
                Some(key) => Certainty::certain_if(disk.find(key.as_slice()).is_some()),
                None => Certainty::Impossible,
            }
        },
        _ => Certainty::Impossible,
    }
}

/// Reads entry `i` out of the companion file.
fn read_entry(companion: &[u8], path: &String, i: usize) -> (r: Result<ArchiveEntry, DecodeError>)
    requires
        i < INDEX_ENTRIES,
    ensures
        match databin_entry(companion@, path@, i as int) {
            Ok(entry) => r matches Ok(e) && e@ == entry,
            Err(e) => r matches Err(e2) && e2 == e,
        },
{
    let record: usize = INDEX_START + 12 * i;
    if companion.len() < 12 || record > companion.len() - 12 {
        return Err(DecodeError::DatabinRead);
    }
    let name_ptr: u32 = companion.read_u32(record)?;
    let sector: u32 = companion.read_u32(record + 4)?;
    let size: u32 = companion.read_u32(record + 8)?;
    if name_ptr < NAME_BASE {
        return Err(DecodeError::DatabinRead);
    }
    let name_at: usize = (name_ptr - NAME_BASE) as usize;
    if companion.len() < NAME_LEN || name_at > companion.len() - NAME_LEN {
        return Err(DecodeError::DatabinRead);
    }
    if sector as u64 * 2048 > usize::MAX as u64 {
        return Err(DecodeError::DatabinRead);
    }
    let mut bytes: Vec<u8> = Vec::new();
    bytes.extend_from_slice(&companion[name_at..name_at + NAME_LEN]);
    assert(bytes@ =~= companion@.subrange(name_at as int, name_at + NAME_LEN));
    match string_from_utf8(bytes) {
        Some(name) => Ok(
            ArchiveEntry {
                data: FileData::Stream {
                    path: path.clone(),
                    start: sector as usize * 2048,
                    size: size as usize,
                },
                name,
                timestamp: None,
                is_compressed: false,
            },
        ),
        None => Err(DecodeError::DatabinName),
    }
}

/// Reads the index of the archive out of the companion file.
#[verifier::loop_isolation(false)]
pub fn decode(file: &mut FileData, disk: &Disk) -> (r: Result<Archive, DecodeError>)
    ensures
        archive_outcome(r) == databin_decoded(old(file)@, *disk),
        final(file)@ == old(file)@,
{
    match file {
        FileData::Stream { path, start, size } => {
            if *start != 0 {
                return Err(DecodeError::DatabinNotDataBin);
            }
            let key: Vec<u8> = match companion_of(path.as_str().as_bytes()) {
                Some(key) => key,
                None => {
                    return Err(DecodeError::DatabinNotDataBin);
                },
            };
            let companion: &[u8] = match disk.find(key.as_slice()) {
                Some(index) => disk.files[index].bytes.as_slice(),
                None => {
                    return Err(DecodeError::DatabinNoCompanion);
                },
            };
            let mut entries: Vec<ArchiveEntry> = Vec::new();
            assert(entry_views(entries@) =~= Seq::empty());
            let mut i: usize = 0;
            while i < INDEX_ENTRIES
                invariant
                    i <= INDEX_ENTRIES,
                    entries@.len() == i,
                    databin_entries(companion@, path@, i as int, entry_views(entries@))
                        == databin_entries(companion@, path@, 0, Seq::empty()),
                decreases INDEX_ENTRIES - i,
            {
                let entry: ArchiveEntry = match read_entry(companion, path, i) {
                    Ok(entry) => entry,
                    Err(e) => {
                        return Err(e);
                    },
                };
                let ghost before = entries@;
                entries.push(entry);
                proof {
                    assert(entry_views(entries@) =~= entry_views(before).push(
                        entries@[i as int]@,
                    ));
                }
                i += 1;
            }
            Ok(Archive { format: Decoder::Databin, entries })
        },
        _ => Err(DecodeError::DatabinNotDataBin),
    }
}

} // verus!
