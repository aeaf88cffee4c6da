use crate::byte_slice::{le_u16, le_u32};
use crate::error::DecodeError;
use crate::file_data::{Disk, FileData, FileDataView};
use crate::registry::Decoder;
use vstd::prelude::*;
use vstd::utf8::{decode_utf8, valid_utf8};

pub mod afs;
pub mod concat2k;
pub mod infdatabin;
pub mod lnk;

verus! {

/// A date and a time of day: year, month, day, hour, minute, second.
pub type Timestamp = (u16, u16, u16, u16, u16, u16);

/// One named file of an archive.
#[derive(Clone, Debug, PartialEq, Eq)]
pub struct ArchiveEntry {
    pub data: FileData,
    pub name: String,
    pub timestamp: Option<Timestamp>,
    /// Whether the archive marks the data as compressed. The data is as stored either way.
    pub is_compressed: bool,
}

/// The files of a container, in the order of its index.
#[derive(Clone, Debug, PartialEq, Eq)]
pub struct Archive {
    pub format: Decoder,
    pub entries: Vec<ArchiveEntry>,
}

/// What an entry is, with sequences for its name and its data.
pub struct ArchiveEntryView {
    pub data: FileDataView,
    pub name: Seq<char>,
    pub timestamp: Option<Timestamp>,
    pub is_compressed: bool,
}

/// What an archive is, with a sequence of entry views.
pub struct ArchiveView {
    pub format: Decoder,
    pub entries: Seq<ArchiveEntryView>,
}

impl View for ArchiveEntry {
    type V = ArchiveEntryView;

    open spec fn view(&self) -> ArchiveEntryView {
        ArchiveEntryView {
            data: self.data@,
            name: self.name@,
            timestamp: self.timestamp,
            is_compressed: self.is_compressed,
        }
    }
}

/// The views of entries.
pub open spec fn entry_views(entries: Seq<ArchiveEntry>) -> Seq<ArchiveEntryView> {
    Seq::new(entries.len(), |i: int| entries[i]@)
}

impl View for Archive {
    type V = ArchiveView;

    open spec fn view(&self) -> ArchiveView {
        ArchiveView { format: self.format, entries: entry_views(self.entries@) }
    }
}

/// The view of what an archive decoder returned.
pub open spec fn archive_outcome(r: Result<Archive, DecodeError>) -> Result<ArchiveView, DecodeError> {
    match r {
        Ok(a) => Ok(a@),
        Err(e) => Err(e),
    }
}

/// Whether reads leave the source as it is: it is in memory, or a window on a file.
pub open spec fn settled(v: FileDataView) -> bool {
    v is Memory || v is Stream
}

/// The unsigned 32-bit integer, little-endian, at `offset` of a source.
pub open spec fn source_u32(v: FileDataView, disk: Disk, offset: int) -> Option<u32> {
    match v.chunk(disk, offset, 4) {
        Some(b) => Some(le_u32(b, 0)),
        None => None,
    }
}

/// The unsigned 16-bit integer, little-endian, at `offset` of a source.
pub open spec fn source_u16(v: FileDataView, disk: Disk, offset: int) -> Option<u16> {
    match v.chunk(disk, offset, 2) {
        Some(b) => Some(le_u16(b, 0)),
        None => None,
    }
}

/// The number of bytes of a name field before its first zero byte, counted from `i`.
pub open spec fn name_len(field: Seq<u8>, i: int) -> int
    decreases field.len() - i,
{
    if i < 0 || i >= field.len() {
        field.len() as int
    } else if field[i] == 0 {
        i
    } else {
        name_len(field, i + 1)
    }
}

/// The name that a zero-padded field holds: what stands before the first zero byte,
/// read as UTF-8.
pub open spec fn field_name(field: Seq<u8>) -> Result<Seq<char>, DecodeError> {
    let bytes = field.subrange(0, name_len(field, 0));
    if valid_utf8(bytes) {
        Ok(decode_utf8(bytes))
    } else {
        Err(DecodeError::NameUtf8)
    }
}

/// The string that the bytes encode. This rests on `String::from_utf8` of the
/// standard library: it fails exactly on bytes that are not UTF-8, and otherwise
/// gives the string of their characters.
#[verifier::external_body]
pub(crate) fn string_from_utf8(bytes: Vec<u8>) -> (r: Option<String>)
    ensures
        r is Some == valid_utf8(bytes@),
        r matches Some(s) ==> s@ == decode_utf8(bytes@),
{
    String::from_utf8(bytes).ok()
}

/// Reads the name out of a zero-padded field.
pub fn name_from_field(field: &[u8]) -> (r: Result<String, DecodeError>)
    ensures
        match field_name(field@) {
            Ok(name) => r matches Ok(s) && s@ == name,
            Err(e) => r matches Err(e2) && e2 == e,
        },
{
    let mut len: usize = 0;
    while len < field.len() && field[len] != 0
        invariant
            len <= field@.len(),
            name_len(field@, len as int) == name_len(field@, 0),
        decreases field@.len() - len,
    {
        len += 1;
    }
    assert(name_len(field@, len as int) == len);
    let mut bytes: Vec<u8> = Vec::new();
    bytes.extend_from_slice(&field[0..len]);
    assert(bytes@ =~= field@.subrange(0, len as int));
    match string_from_utf8(bytes) {
        Some(s) => Ok(s),
        None => Err(DecodeError::NameUtf8),
    }
}

} // verus!
