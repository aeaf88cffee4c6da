use crate::byte_slice::{
    be_i16,
    be_i32,
    be_i64,
    be_i8,
    be_isize,
    be_u16,
    be_u32,
    be_u64,
    be_u8,
    be_usize,
    fits,
    le_i16,
    le_i32,
    le_i64,
    le_i8,
    le_isize,
    le_u16,
    le_u32,
    le_u64,
    le_u8,
    le_usize,
    word_len,
    word_size,
    ByteSlice,
};
use crate::data_formats::lzss::{decompress_lzss, lzss_decompressed};
use crate::data_formats::lzss_be::{decompress_lzss_be, lzss_be_decompressed};
use crate::data_formats::lzss_dc::{decompress_lzss_dc, lzss_dc_decompressed};
use crate::error::DecodeError;
use vstd::prelude::*;
use vstd::utf8::encode_utf8;

verus! {

/// A file as the caller has read it from storage: its path and all of its bytes.
#[derive(Clone, Debug, PartialEq, Eq)]
pub struct DiskFile {
    pub path: String,
    pub bytes: Vec<u8>,
}

/// The files that streamed sources read from. The library reads no storage itself:
/// the caller loads the files and hands them over.
#[derive(Clone, Debug, PartialEq, Eq)]
pub struct Disk {
    pub files: Vec<DiskFile>,
}

/// The key under which a path is looked up: its bytes.
pub open spec fn path_key(path: Seq<char>) -> Seq<u8> {
    encode_utf8(path)
}

impl Disk {
    /// The number of the first file at or after `from` whose path has the key `key`.
    pub open spec fn position(self, key: Seq<u8>, from: int) -> Option<int>
        decreases self.files@.len() - from,
    {
        if from < 0 || from >= self.files@.len() {
            None
        } else if path_key(self.files@[from].path@) == key {
            Some(from)
        } else {
            self.position(key, from + 1)
        }
    }

    /// The bytes of the file whose path has the key `key`.
    pub open spec fn file(self, key: Seq<u8>) -> Option<Seq<u8>> {
        match self.position(key, 0) {
            Some(i) => Some(self.files@[i].bytes@),
            None => None,
        }
    }

    /// The `len` bytes at `start` of the file whose path has the key `key`; `None` where
    /// there is no such file or it is too short.
    pub open spec fn region(self, key: Seq<u8>, start: int, len: int) -> Option<Seq<u8>> {
        match self.file(key) {
            Some(bytes) => if fits(bytes, start, len) {
                Some(bytes.subrange(start, start + len))
            } else {
                None
            },
            None => None,
        }
    }

    /// No files.
    pub fn new() -> (r: Disk)
        ensures
            r.files@.len() == 0,
    {
        Disk { files: Vec::new() }
    }

    /// Adds a file after those that are there.
    pub fn add(&mut self, path: String, bytes: Vec<u8>)
        ensures
            final(self).files@ == old(self).files@.push(DiskFile { path, bytes }),
    {
        self.files.push(DiskFile { path, bytes });
    }

    /// The number of the first file whose path has the key `key`.
    pub fn find(&self, key: &[u8]) -> (r: Option<usize>)
        ensures
            r matches Some(i) ==> self.position(key@, 0) == Some(i as int) && i < self.files@.len(),
            r is None ==> self.position(key@, 0) is None,
    {
        let mut i: usize = 0;
        while i < self.files.len()
            invariant
                i <= self.files@.len(),
                self.position(key@, i as int) == self.position(key@, 0),
            decreases self.files@.len() - i,
        {
            let path: &[u8] = self.files[i].path.as_str().as_bytes();
            if path.len() == key.len() && path.starts_with_at(key, 0) {
                assert(path@ =~= path@.subrange(0, key@.len() as int));
                return Some(i);
            }
            assert(path@ != key@) by {
                if path@ == key@ {
                    assert(path@ =~= path@.subrange(0, key@.len() as int));
                }
            }
            i += 1;
        }
        None
    }

    /// The `len` bytes at `start` of the file whose path has the key `key`.
    pub fn read_region(&self, key: &[u8], start: usize, len: usize) -> (r: Option<&[u8]>)
        ensures
            r matches Some(b) ==> self.region(key@, start as int, len as int) == Some(b@),
            r is None ==> self.region(key@, start as int, len as int) is None,
    {
        match self.find(key) {
            Some(i) => {
                let bytes: &[u8] = self.files[i].bytes.as_slice();
                if len <= bytes.len() && start <= bytes.len() - len {
                    Some(&bytes[start..start + len])
                } else {
                    None
                }
            },
            None => None,
        }
    }
}

/// A way to decompress the payload of a compressed source.
#[derive(Clone, Copy, PartialEq, Eq, Structural, Debug)]
pub enum Decompressor {
    /// The window-based scheme with a fixed output size.
    Lzss,
    /// The chunk-framed scheme.
    LzssBe,
    /// The chunk-framed scheme, strict.
    LzssDc,
}

impl Decompressor {
    /// What the payload `buf` unpacks to; nothing where it does not unpack to `full_size` bytes.
    pub open spec fn unpacked(self, buf: Seq<u8>, full_size: int) -> Seq<u8> {
        let outcome = match self {
            Decompressor::Lzss => lzss_decompressed(buf, full_size, false),
            Decompressor::LzssBe => lzss_be_decompressed(buf, full_size),
            Decompressor::LzssDc => lzss_dc_decompressed(buf, full_size),
        };
        match outcome {
            Ok(out) => out,
            Err(_) => Seq::empty(),
        }
    }

    /// Unpacks a payload.
    pub fn run(self, buf: &[u8], full_size: usize) -> (r: Vec<u8>)
        ensures
            r@ == self.unpacked(buf@, full_size as int),
    {
        let outcome = match self {
            Decompressor::Lzss => decompress_lzss(buf, full_size, false),
            Decompressor::LzssBe => decompress_lzss_be(buf, full_size),
            Decompressor::LzssDc => decompress_lzss_dc(buf, full_size),
        };
        match outcome {
            Ok(out) => out,
            Err(_) => Vec::new(),
        }
    }
}

/// A source of bytes: held in memory or left in a file, as they are or compressed.
#[derive(Clone, Debug, PartialEq, Eq)]
pub enum FileData {
    /// The bytes themselves.
    Memory { buf: Vec<u8> },
    /// A compressed payload and the size it unpacks to.
    MemoryCompressed { buf: Vec<u8>, full_size: usize, decompress: Decompressor },
    /// `size` bytes at `start` of the file at `path`.
    Stream { path: String, start: usize, size: usize },
    /// A compressed payload of `size` bytes at `start` of the file at `path`, and the
    /// size it unpacks to.
    StreamCompressed {
        path: String,
        start: usize,
        size: usize,
        full_size: usize,
        decompress: Decompressor,
    },
}

/// What a source is, with sequences for its buffers and its path.
pub enum FileDataView {
    Memory { buf: Seq<u8> },
    MemoryCompressed { buf: Seq<u8>, full_size: usize, decompress: Decompressor },
    Stream { path: Seq<char>, start: usize, size: usize },
    StreamCompressed {
        path: Seq<char>,
        start: usize,
        size: usize,
        full_size: usize,
        decompress: Decompressor,
    },
}

impl View for FileData {
    type V = FileDataView;

    open spec fn view(&self) -> FileDataView {
        match *self {
            FileData::Memory { buf } => FileDataView::Memory { buf: buf@ },
            FileData::MemoryCompressed { buf, full_size, decompress } => {
                FileDataView::MemoryCompressed { buf: buf@, full_size, decompress }
            },
            FileData::Stream { path, start, size } => FileDataView::Stream {
                path: path@,
                start,
                size,
            },
            FileData::StreamCompressed { path, start, size, full_size, decompress } => {
                FileDataView::StreamCompressed { path: path@, start, size, full_size, decompress }
            },
        }
    }
}

impl FileDataView {
    /// The logical size: that of the bytes once unpacked.
    pub open spec fn len(self) -> int {
        match self {
            FileDataView::Memory { buf } => buf.len() as int,
            FileDataView::MemoryCompressed { full_size, .. } => full_size as int,
            FileDataView::Stream { size, .. } => size as int,
            FileDataView::StreamCompressed { full_size, .. } => full_size as int,
        }
    }

    /// All the bytes of the source, unpacked; `None` where a file cannot be read.
    pub open spec fn contents(self, disk: Disk) -> Option<Seq<u8>> {
        match self {
            FileDataView::Memory { buf } => Some(buf),
            FileDataView::MemoryCompressed { buf, full_size, decompress } => Some(
                decompress.unpacked(buf, full_size as int),
            ),
            FileDataView::Stream { path, start, size } => disk.region(
                path_key(path),
                start as int,
                size as int,
            ),
            FileDataView::StreamCompressed { path, start, size, full_size, decompress } => {
                match disk.region(path_key(path), start as int, size as int) {
                    Some(raw) => Some(decompress.unpacked(raw, full_size as int)),
                    None => None,
                }
            },
        }
    }

    /// The `len` bytes at `chunk_start`; `None` where they lie beyond the logical size
    /// or beyond what is there, or where a file cannot be read.
    pub open spec fn chunk(self, disk: Disk, chunk_start: int, len: int) -> Option<Seq<u8>> {
        if chunk_start + len > self.len() {
            None
        } else {
            match self {
                FileDataView::Stream { path, start, size } => if start + chunk_start > usize::MAX {
                    None
                } else {
                    disk.region(path_key(path), start + chunk_start, len)
                },
                _ => match self.contents(disk) {
                    Some(c) => if fits(c, chunk_start, len) {
                        Some(c.subrange(chunk_start, chunk_start + len))
                    } else {
                        None
                    },
                    None => None,
                },
            }
        }
    }

    /// The source after a read of `len` bytes at `chunk_start`: a compressed source has
    /// been unpacked into memory, unless the request lay beyond its logical size or
    /// its file could not be read; any other source is as it was.
    pub open spec fn after_chunk(self, disk: Disk, chunk_start: int, len: int) -> FileDataView {
        match self {
            FileDataView::Memory { .. } | FileDataView::Stream { .. } => self,
            _ => if chunk_start + len > self.len() {
                self
            } else {
                match self.contents(disk) {
                    Some(c) => FileDataView::Memory { buf: c },
                    None => self,
                }
            },
        }
    }

    /// The source with a compressed payload unpacked into memory, unless its file could
    /// not be read; a source that is not compressed is as it was.
    pub open spec fn settled(self, disk: Disk) -> FileDataView {
        match self {
            FileDataView::Memory { .. } | FileDataView::Stream { .. } => self,
            _ => self.after_read(disk),
        }
    }

    /// The source after all of it has been read: in memory, unless its file could not be read.
    pub open spec fn after_read(self, disk: Disk) -> FileDataView {
        match self.contents(disk) {
            Some(c) => FileDataView::Memory { buf: c },
            None => self,
        }
    }
}

/// Copies `src` over `out`.
fn copy_into(out: &mut [u8], src: &[u8])
    requires
        old(out)@.len() == src@.len(),
    ensures
        final(out)@ == src@,
{
    let n: usize = src.len();
    let mut i: usize = 0;
    while i < n
        invariant
            i <= n,
            n == src@.len(),
            out@.len() == n,
            forall|k: int| 0 <= k < i ==> out@[k] == src@[k],
        decreases n - i,
    {
        out[i] = src[i];
        i += 1;
    }
    assert(out@ =~= src@);
}

/// A copy of `src`.
fn to_vec(src: &[u8]) -> (r: Vec<u8>)
    ensures
        r@ == src@,
{
    let mut v: Vec<u8> = Vec::new();
    v.extend_from_slice(src);
    v
}

impl FileData {
    /// The logical size: that of the bytes once unpacked.
    pub fn len(&self) -> (r: usize)
        ensures
            r == self@.len(),
    {
        match self {
            FileData::Memory { buf } => buf.len(),
            FileData::MemoryCompressed { full_size, .. } => *full_size,
            FileData::Stream { size, .. } => *size,
            FileData::StreamCompressed { full_size, .. } => *full_size,
        }
    }

    /// A source that is what this one is. A streamed source shares no state with its copy.
    pub fn duplicate(&self) -> (r: FileData)
        ensures
            r@ == self@,
    {
        match self {
            FileData::Memory { buf } => FileData::Memory { buf: to_vec(buf.as_slice()) },
            FileData::MemoryCompressed { buf, full_size, decompress } => {
                FileData::MemoryCompressed {
                    buf: to_vec(buf.as_slice()),
                    full_size: *full_size,
                    decompress: *decompress,
                }
            },
            FileData::Stream { path, start, size } => FileData::Stream {
                path: path.clone(),
                start: *start,
                size: *size,
            },
            FileData::StreamCompressed { path, start, size, full_size, decompress } => {
                FileData::StreamCompressed {
                    path: path.clone(),
                    start: *start,
                    size: *size,
                    full_size: *full_size,
                    decompress: *decompress,
                }
            },
        }
    }

    /// Brings a compressed or streamed source into memory. Fails, and leaves the source
    /// as it was, where its file cannot be read.
    pub fn load(&mut self, disk: &Disk) -> (r: Result<(), DecodeError>)
        ensures
            final(self)@ == old(self)@.after_read(*disk),
            r is Ok == old(self)@.contents(*disk) is Some,
            r matches Err(e) ==> e == DecodeError::Io,
    {
        let loaded: Option<Vec<u8>> = match self {
            FileData::Memory { .. } => None,
            FileData::MemoryCompressed { buf, full_size, decompress } => Some(
                decompress.run(buf.as_slice(), *full_size),
            ),
            FileData::Stream { path, start, size } => {
                match disk.read_region(path.as_str().as_bytes(), *start, *size) {
                    Some(bytes) => Some(to_vec(bytes)),
                    None => {
                        return Err(DecodeError::Io);
                    },
                }
            },
            FileData::StreamCompressed { path, start, size, full_size, decompress } => {
                match disk.read_region(path.as_str().as_bytes(), *start, *size) {
                    Some(raw) => Some(decompress.run(raw, *full_size)),
                    None => {
                        return Err(DecodeError::Io);
                    },
                }
            },
        };
        match loaded {
            Some(buf) => {
                *self = FileData::Memory { buf };
            },
            None => {},
        }
        Ok(())
    }

    /// Unpacks a compressed source into memory; any other source is left as it is.
    /// Fails, and leaves the source as it was, where its file cannot be read.
    pub fn settle(&mut self, disk: &Disk) -> (r: Result<(), DecodeError>)
        ensures
            final(self)@ == old(self)@.settled(*disk),
            r is Ok == (final(self)@ is Memory || final(self)@ is Stream),
            r matches Err(e) ==> e == DecodeError::Io,
    {
        match self {
            FileData::Memory { .. } | FileData::Stream { .. } => Ok(()),
            _ => self.load(disk),
        }
    }

    /// All the bytes. The source is in memory afterwards. Fails, and leaves the source
    /// as it was, where its file cannot be read.
    pub fn read(&mut self, disk: &Disk) -> (r: Result<&[u8], DecodeError>)
        ensures
            final(self)@ == old(self)@.after_read(*disk),
            match old(self)@.contents(*disk) {
                Some(c) => r matches Ok(b) && b@ == c,
                None => r matches Err(e) && e == DecodeError::Io,
            },
    {
        match self.load(disk) {
            Ok(()) => {},
            Err(e) => {
                return Err(e);
            },
        }
        match self {
            FileData::Memory { buf } => Ok(buf.as_slice()),
            _ => Err(DecodeError::Io),
        }
    }

    /// Fills `out_buf` with the bytes at `chunk_start`, or fails and leaves it as it was.
    /// A streamed source is read no further than asked; a compressed one is unpacked
    /// into memory.
    pub fn read_chunk_exact(&mut self, disk: &Disk, out_buf: &mut [u8], chunk_start: usize) -> (r:
        Result<(), ()>)
        ensures
            final(self)@ == old(self)@.after_chunk(
                *disk,
                chunk_start as int,
                old(out_buf)@.len() as int,
            ),
            match old(self)@.chunk(*disk, chunk_start as int, old(out_buf)@.len() as int) {
                Some(c) => r is Ok && final(out_buf)@ == c,
                None => r is Err && final(out_buf)@ == old(out_buf)@,
            },
    {
        let len: usize = out_buf.len();
        let total: usize = self.len();
        if len > total || chunk_start > total - len {
            return Err(());
        }
        match self {
            FileData::Stream { path, start, size } => {
                if chunk_start > usize::MAX - *start {
                    return Err(());
                }
                match disk.read_region(path.as_str().as_bytes(), *start + chunk_start, len) {
                    Some(bytes) => {
                        copy_into(out_buf, bytes);
                        return Ok(());
                    },
                    None => {
                        return Err(());
                    },
                }
            },
            _ => {},
        }
        match self.load(disk) {
            Ok(()) => {},
            Err(_) => {
                return Err(());
            },
        }
        match self {
            FileData::Memory { buf } => {
                if len <= buf.len() && chunk_start <= buf.len() - len {
                    copy_into(out_buf, &buf.as_slice()[chunk_start..chunk_start + len]);
                    Ok(())
                } else {
                    Err(())
                }
            },
            _ => Err(()),
        }
    }

    /// Whether `needle` stands at `offset`. No more of a streamed source is read than
    /// the needle is long, and the source is left as it was.
    pub fn starts_with_at(&mut self, disk: &Disk, needle: &[u8], offset: usize) -> (r: bool)
        ensures
            final(self)@ == old(self)@,
            r == (old(self)@.probe(*disk, offset as int, needle@.len() as int) == Some(needle@)),
    {
        let len: usize = needle.len();
        let total: usize = self.len();
        match self {
            FileData::Memory { buf } => buf.as_slice().starts_with_at(needle, offset),
            FileData::MemoryCompressed { buf, full_size, decompress } => {
                let unpacked: Vec<u8> = decompress.run(buf.as_slice(), *full_size);
                unpacked.as_slice().starts_with_at(needle, offset)
            },
            FileData::Stream { path, start, size } => {
                if len > *size || offset > *size - len || offset > usize::MAX - *start {
                    return false;
                }
                match disk.read_region(path.as_str().as_bytes(), *start + offset, len) {
                    Some(bytes) => {
                        assert(bytes@.subrange(0, len as int) =~= bytes@);
                        bytes.starts_with_at(needle, 0)
                    },
                    None => false,
                }
            },
            FileData::StreamCompressed { path, start, size, full_size, decompress } => {
                match disk.read_region(path.as_str().as_bytes(), *start, *size) {
                    Some(raw) => {
                        let unpacked: Vec<u8> = decompress.run(raw, *full_size);
                        unpacked.as_slice().starts_with_at(needle, offset)
                    },
                    None => false,
                }
            },
        }
    }

    /// Whether the source starts with `needle`.
    pub fn starts_with(&mut self, disk: &Disk, needle: &[u8]) -> (r: bool)
        ensures
            final(self)@ == old(self)@,
            r == (old(self)@.probe(*disk, 0, needle@.len() as int) == Some(needle@)),
    {
        self.starts_with_at(disk, needle, 0)
    }

    /// The `sub_size` bytes at `sub_start` as a source of their own. Of a streamed
    /// source this is another window on the same file, and nothing is read; of any
    /// other it is a copy in memory.
    pub fn subfile(&mut self, disk: &Disk, sub_start: usize, sub_size: usize) -> (r: Result<
        FileData,
        DecodeError,
    >)
        ensures
            final(self)@ == old(self)@.after_subfile(*disk, sub_start as int, sub_size as int),
            match old(self)@.subfile(*disk, sub_start as int, sub_size as int) {
                Some(v) => r matches Ok(f) && f@ == v,
                None => r matches Err(e) && e == DecodeError::SubfileRange,
            },
    {
        match self {
            FileData::Stream { path, start, size } => {
                if sub_size > *size || sub_start > *size - sub_size || sub_start > usize::MAX
                    - *start {
                    return Err(DecodeError::SubfileRange);
                }
                return Ok(
                    FileData::Stream {
                        path: path.clone(),
                        start: *start + sub_start,
                        size: sub_size,
                    },
                );
            },
            _ => {},
        }
        let total: usize = self.len();
        if sub_size > total || sub_start > total - sub_size {
            return Err(DecodeError::SubfileRange);
        }
        let mut buf: Vec<u8> = vec![0u8; sub_size];
        match self.read_chunk_exact(disk, buf.as_mut_slice(), sub_start) {
            Ok(()) => Ok(FileData::Memory { buf }),
            Err(()) => Err(DecodeError::SubfileRange),
        }
    }

    /// Reads an unsigned 8-bit integer, little-endian, at `offset`.
    pub fn read_u8(&mut self, disk: &Disk, offset: usize) -> (r: Result<u8, DecodeError>)
        ensures
            r == (match old(self)@.chunk(*disk, offset as int, 1) {
                Some(b) => Ok::<u8, DecodeError>(le_u8(b, 0)),
                None => Err::<u8, DecodeError>(DecodeError::ReadField),
            }),
            final(self)@ == old(self)@.after_chunk(*disk, offset as int, 1),
    {
        match self.get_u8_at(disk, offset) {
            Some(v) => Ok(v),
            None => Err(DecodeError::ReadField),
        }
    }

    /// Reads an unsigned 8-bit integer, little-endian, at `offset`; `None` where it cannot be read.
    pub fn get_u8_at(&mut self, disk: &Disk, offset: usize) -> (r: Option<u8>)
        ensures
            r == (match old(self)@.chunk(*disk, offset as int, 1) {
                Some(b) => Some(le_u8(b, 0)),
                None => None::<u8>,
            }),
            final(self)@ == old(self)@.after_chunk(*disk, offset as int, 1),
    {
        let mut bytes: Vec<u8> = vec![0u8; 1];
        match self.read_chunk_exact(disk, bytes.as_mut_slice(), offset) {
            Ok(()) => bytes.as_slice().get_u8_at(0),
            Err(()) => None,
        }
    }

    /// Reads an unsigned 8-bit integer, big-endian, at `offset`.
    pub fn read_u8_be(&mut self, disk: &Disk, offset: usize) -> (r: Result<u8, DecodeError>)
        ensures
            r == (match old(self)@.chunk(*disk, offset as int, 1) {
                Some(b) => Ok::<u8, DecodeError>(be_u8(b, 0)),
                None => Err::<u8, DecodeError>(DecodeError::ReadField),
            }),
            final(self)@ == old(self)@.after_chunk(*disk, offset as int, 1),
    {
        match self.get_u8_at_be(disk, offset) {
            Some(v) => Ok(v),
            None => Err(DecodeError::ReadField),
        }
    }

    /// Reads an unsigned 8-bit integer, big-endian, at `offset`; `None` where it cannot be read.
    pub fn get_u8_at_be(&mut self, disk: &Disk, offset: usize) -> (r: Option<u8>)
        ensures
            r == (match old(self)@.chunk(*disk, offset as int, 1) {
                Some(b) => Some(be_u8(b, 0)),
                None => None::<u8>,
            }),
            final(self)@ == old(self)@.after_chunk(*disk, offset as int, 1),
    {
        let mut bytes: Vec<u8> = vec![0u8; 1];
        match self.read_chunk_exact(disk, bytes.as_mut_slice(), offset) {
            Ok(()) => bytes.as_slice().get_u8_at_be(0),
            Err(()) => None,
        }
    }

    /// Reads an unsigned 16-bit integer, little-endian, at `offset`.
    pub fn read_u16(&mut self, disk: &Disk, offset: usize) -> (r: Result<u16, DecodeError>)
        ensures
            r == (match old(self)@.chunk(*disk, offset as int, 2) {
                Some(b) => Ok::<u16, DecodeError>(le_u16(b, 0)),
                None => Err::<u16, DecodeError>(DecodeError::ReadField),
            }),
            final(self)@ == old(self)@.after_chunk(*disk, offset as int, 2),
    {
        match self.get_u16_at(disk, offset) {
            Some(v) => Ok(v),
            None => Err(DecodeError::ReadField),
        }
    }

    /// Reads an unsigned 16-bit integer, little-endian, at `offset`; `None` where it cannot be read.
    pub fn get_u16_at(&mut self, disk: &Disk, offset: usize) -> (r: Option<u16>)
        ensures
            r == (match old(self)@.chunk(*disk, offset as int, 2) {
                Some(b) => Some(le_u16(b, 0)),
                None => None::<u16>,
            }),
            final(self)@ == old(self)@.after_chunk(*disk, offset as int, 2),
    {
        let mut bytes: Vec<u8> = vec![0u8; 2];
        match self.read_chunk_exact(disk, bytes.as_mut_slice(), offset) {
            Ok(()) => bytes.as_slice().get_u16_at(0),
            Err(()) => None,
        }
    }

    /// Reads an unsigned 16-bit integer, big-endian, at `offset`.
    pub fn read_u16_be(&mut self, disk: &Disk, offset: usize) -> (r: Result<u16, DecodeError>)
        ensures
            r == (match old(self)@.chunk(*disk, offset as int, 2) {
                Some(b) => Ok::<u16, DecodeError>(be_u16(b, 0)),
                None => Err::<u16, DecodeError>(DecodeError::ReadField),
            }),
            final(self)@ == old(self)@.after_chunk(*disk, offset as int, 2),
    {
        match self.get_u16_at_be(disk, offset) {
            Some(v) => Ok(v),
            None => Err(DecodeError::ReadField),
        }
    }

    /// Reads an unsigned 16-bit integer, big-endian, at `offset`; `None` where it cannot be read.
    pub fn get_u16_at_be(&mut self, disk: &Disk, offset: usize) -> (r: Option<u16>)
        ensures
            r == (match old(self)@.chunk(*disk, offset as int, 2) {
                Some(b) => Some(be_u16(b, 0)),
                None => None::<u16>,
            }),
            final(self)@ == old(self)@.after_chunk(*disk, offset as int, 2),
    {
        let mut bytes: Vec<u8> = vec![0u8; 2];
        match self.read_chunk_exact(disk, bytes.as_mut_slice(), offset) {
            Ok(()) => bytes.as_slice().get_u16_at_be(0),
            Err(()) => None,
        }
    }

    /// Reads an unsigned 32-bit integer, little-endian, at `offset`.
    pub fn read_u32(&mut self, disk: &Disk, offset: usize) -> (r: Result<u32, DecodeError>)
        ensures
            r == (match old(self)@.chunk(*disk, offset as int, 4) {
                Some(b) => Ok::<u32, DecodeError>(le_u32(b, 0)),
                None => Err::<u32, DecodeError>(DecodeError::ReadField),
            }),
            final(self)@ == old(self)@.after_chunk(*disk, offset as int, 4),
    {
        match self.get_u32_at(disk, offset) {
            Some(v) => Ok(v),
            None => Err(DecodeError::ReadField),
        }
    }

    /// Reads an unsigned 32-bit integer, little-endian, at `offset`; `None` where it cannot be read.
    pub fn get_u32_at(&mut self, disk: &Disk, offset: usize) -> (r: Option<u32>)
        ensures
            r == (match old(self)@.chunk(*disk, offset as int, 4) {
                Some(b) => Some(le_u32(b, 0)),
                None => None::<u32>,
            }),
            final(self)@ == old(self)@.after_chunk(*disk, offset as int, 4),
    {
        let mut bytes: Vec<u8> = vec![0u8; 4];
        match self.read_chunk_exact(disk, bytes.as_mut_slice(), offset) {
            Ok(()) => bytes.as_slice().get_u32_at(0),
            Err(()) => None,
        }
    }

    /// Reads an unsigned 32-bit integer, big-endian, at `offset`.
    pub fn read_u32_be(&mut self, disk: &Disk, offset: usize) -> (r: Result<u32, DecodeError>)
        ensures
            r == (match old(self)@.chunk(*disk, offset as int, 4) {
                Some(b) => Ok::<u32, DecodeError>(be_u32(b, 0)),
                None => Err::<u32, DecodeError>(DecodeError::ReadField),
            }),
            final(self)@ == old(self)@.after_chunk(*disk, offset as int, 4),
    {
        match self.get_u32_at_be(disk, offset) {
            Some(v) => Ok(v),
            None => Err(DecodeError::ReadField),
        }
    }

    /// Reads an unsigned 32-bit integer, big-endian, at `offset`; `None` where it cannot be read.
    pub fn get_u32_at_be(&mut self, disk: &Disk, offset: usize) -> (r: Option<u32>)
        ensures
            r == (match old(self)@.chunk(*disk, offset as int, 4) {
                Some(b) => Some(be_u32(b, 0)),
                None => None::<u32>,
            }),
            final(self)@ == old(self)@.after_chunk(*disk, offset as int, 4),
    {
        let mut bytes: Vec<u8> = vec![0u8; 4];
        match self.read_chunk_exact(disk, bytes.as_mut_slice(), offset) {
            Ok(()) => bytes.as_slice().get_u32_at_be(0),
            Err(()) => None,
        }
    }

    /// Reads an unsigned 64-bit integer, little-endian, at `offset`.
    pub fn read_u64(&mut self, disk: &Disk, offset: usize) -> (r: Result<u64, DecodeError>)
        ensures
            r == (match old(self)@.chunk(*disk, offset as int, 8) {
                Some(b) => Ok::<u64, DecodeError>(le_u64(b, 0)),
                None => Err::<u64, DecodeError>(DecodeError::ReadField),
            }),
            final(self)@ == old(self)@.after_chunk(*disk, offset as int, 8),
    {
        match self.get_u64_at(disk, offset) {
            Some(v) => Ok(v),
            None => Err(DecodeError::ReadField),
        }
    }

    /// Reads an unsigned 64-bit integer, little-endian, at `offset`; `None` where it cannot be read.
    pub fn get_u64_at(&mut self, disk: &Disk, offset: usize) -> (r: Option<u64>)
        ensures
            r == (match old(self)@.chunk(*disk, offset as int, 8) {
                Some(b) => Some(le_u64(b, 0)),
                None => None::<u64>,
            }),
            final(self)@ == old(self)@.after_chunk(*disk, offset as int, 8),
    {
        let mut bytes: Vec<u8> = vec![0u8; 8];
        match self.read_chunk_exact(disk, bytes.as_mut_slice(), offset) {
            Ok(()) => bytes.as_slice().get_u64_at(0),
            Err(()) => None,
        }
    }

    /// Reads an unsigned 64-bit integer, big-endian, at `offset`.
    pub fn read_u64_be(&mut self, disk: &Disk, offset: usize) -> (r: Result<u64, DecodeError>)
        ensures
            r == (match old(self)@.chunk(*disk, offset as int, 8) {
                Some(b) => Ok::<u64, DecodeError>(be_u64(b, 0)),
                None => Err::<u64, DecodeError>(DecodeError::ReadField),
            }),
            final(self)@ == old(self)@.after_chunk(*disk, offset as int, 8),
    {
        match self.get_u64_at_be(disk, offset) {
            Some(v) => Ok(v),
            None => Err(DecodeError::ReadField),
        }
    }

    /// Reads an unsigned 64-bit integer, big-endian, at `offset`; `None` where it cannot be read.
    pub fn get_u64_at_be(&mut self, disk: &Disk, offset: usize) -> (r: Option<u64>)
        ensures
            r == (match old(self)@.chunk(*disk, offset as int, 8) {
                Some(b) => Some(be_u64(b, 0)),
                None => None::<u64>,
            }),
            final(self)@ == old(self)@.after_chunk(*disk, offset as int, 8),
    {
        let mut bytes: Vec<u8> = vec![0u8; 8];
        match self.read_chunk_exact(disk, bytes.as_mut_slice(), offset) {
            Ok(()) => bytes.as_slice().get_u64_at_be(0),
            Err(()) => None,
        }
    }

    /// Reads a signed 8-bit integer, little-endian, at `offset`.
    pub fn read_i8(&mut self, disk: &Disk, offset: usize) -> (r: Result<i8, DecodeError>)
        ensures
            r == (match old(self)@.chunk(*disk, offset as int, 1) {
                Some(b) => Ok::<i8, DecodeError>(le_i8(b, 0)),
                None => Err::<i8, DecodeError>(DecodeError::ReadField),
            }),
            final(self)@ == old(self)@.after_chunk(*disk, offset as int, 1),
    {
        match self.get_i8_at(disk, offset) {
            Some(v) => Ok(v),
            None => Err(DecodeError::ReadField),
        }
    }

    /// Reads a signed 8-bit integer, little-endian, at `offset`; `None` where it cannot be read.
    pub fn get_i8_at(&mut self, disk: &Disk, offset: usize) -> (r: Option<i8>)
        ensures
            r == (match old(self)@.chunk(*disk, offset as int, 1) {
                Some(b) => Some(le_i8(b, 0)),
                None => None::<i8>,
            }),
            final(self)@ == old(self)@.after_chunk(*disk, offset as int, 1),
    {
        let mut bytes: Vec<u8> = vec![0u8; 1];
        match self.read_chunk_exact(disk, bytes.as_mut_slice(), offset) {
            Ok(()) => bytes.as_slice().get_i8_at(0),
            Err(()) => None,
        }
    }

    /// Reads a signed 8-bit integer, big-endian, at `offset`.
    pub fn read_i8_be(&mut self, disk: &Disk, offset: usize) -> (r: Result<i8, DecodeError>)
        ensures
            r == (match old(self)@.chunk(*disk, offset as int, 1) {
                Some(b) => Ok::<i8, DecodeError>(be_i8(b, 0)),
                None => Err::<i8, DecodeError>(DecodeError::ReadField),
            }),
            final(self)@ == old(self)@.after_chunk(*disk, offset as int, 1),
    {
        match self.get_i8_at_be(disk, offset) {
            Some(v) => Ok(v),
            None => Err(DecodeError::ReadField),
        }
    }

    /// Reads a signed 8-bit integer, big-endian, at `offset`; `None` where it cannot be read.
    pub fn get_i8_at_be(&mut self, disk: &Disk, offset: usize) -> (r: Option<i8>)
        ensures
            r == (match old(self)@.chunk(*disk, offset as int, 1) {
                Some(b) => Some(be_i8(b, 0)),
                None => None::<i8>,
            }),
            final(self)@ == old(self)@.after_chunk(*disk, offset as int, 1),
    {
        let mut bytes: Vec<u8> = vec![0u8; 1];
        match self.read_chunk_exact(disk, bytes.as_mut_slice(), offset) {
            Ok(()) => bytes.as_slice().get_i8_at_be(0),
            Err(()) => None,
        }
    }

    /// Reads a signed 16-bit integer, little-endian, at `offset`.
    pub fn read_i16(&mut self, disk: &Disk, offset: usize) -> (r: Result<i16, DecodeError>)
        ensures
            r == (match old(self)@.chunk(*disk, offset as int, 2) {
                Some(b) => Ok::<i16, DecodeError>(le_i16(b, 0)),
                None => Err::<i16, DecodeError>(DecodeError::ReadField),
            }),
            final(self)@ == old(self)@.after_chunk(*disk, offset as int, 2),
    {
        match self.get_i16_at(disk, offset) {
            Some(v) => Ok(v),
            None => Err(DecodeError::ReadField),
        }
    }

    /// Reads a signed 16-bit integer, little-endian, at `offset`; `None` where it cannot be read.
    pub fn get_i16_at(&mut self, disk: &Disk, offset: usize) -> (r: Option<i16>)
        ensures
            r == (match old(self)@.chunk(*disk, offset as int, 2) {
                Some(b) => Some(le_i16(b, 0)),
                None => None::<i16>,
            }),
            final(self)@ == old(self)@.after_chunk(*disk, offset as int, 2),
    {
        let mut bytes: Vec<u8> = vec![0u8; 2];
        match self.read_chunk_exact(disk, bytes.as_mut_slice(), offset) {
            Ok(()) => bytes.as_slice().get_i16_at(0),
            Err(()) => None,
        }
    }

    /// Reads a signed 16-bit integer, big-endian, at `offset`.
    pub fn read_i16_be(&mut self, disk: &Disk, offset: usize) -> (r: Result<i16, DecodeError>)
        ensures
            r == (match old(self)@.chunk(*disk, offset as int, 2) {
                Some(b) => Ok::<i16, DecodeError>(be_i16(b, 0)),
                None => Err::<i16, DecodeError>(DecodeError::ReadField),
            }),
            final(self)@ == old(self)@.after_chunk(*disk, offset as int, 2),
    {
        match self.get_i16_at_be(disk, offset) {
            Some(v) => Ok(v),
            None => Err(DecodeError::ReadField),
        }
    }

    /// Reads a signed 16-bit integer, big-endian, at `offset`; `None` where it cannot be read.
    pub fn get_i16_at_be(&mut self, disk: &Disk, offset: usize) -> (r: Option<i16>)
        ensures
            r == (match old(self)@.chunk(*disk, offset as int, 2) {
                Some(b) => Some(be_i16(b, 0)),
                None => None::<i16>,
            }),
            final(self)@ == old(self)@.after_chunk(*disk, offset as int, 2),
    {
        let mut bytes: Vec<u8> = vec![0u8; 2];
        match self.read_chunk_exact(disk, bytes.as_mut_slice(), offset) {
            Ok(()) => bytes.as_slice().get_i16_at_be(0),
            Err(()) => None,
        }
    }

    /// Reads a signed 32-bit integer, little-endian, at `offset`.
    pub fn read_i32(&mut self, disk: &Disk, offset: usize) -> (r: Result<i32, DecodeError>)
        ensures
            r == (match old(self)@.chunk(*disk, offset as int, 4) {
                Some(b) => Ok::<i32, DecodeError>(le_i32(b, 0)),
                None => Err::<i32, DecodeError>(DecodeError::ReadField),
            }),
            final(self)@ == old(self)@.after_chunk(*disk, offset as int, 4),
    {
        match self.get_i32_at(disk, offset) {
            Some(v) => Ok(v),
            None => Err(DecodeError::ReadField),
        }
    }

    /// Reads a signed 32-bit integer, little-endian, at `offset`; `None` where it cannot be read.
    pub fn get_i32_at(&mut self, disk: &Disk, offset: usize) -> (r: Option<i32>)
        ensures
            r == (match old(self)@.chunk(*disk, offset as int, 4) {
                Some(b) => Some(le_i32(b, 0)),
                None => None::<i32>,
            }),
            final(self)@ == old(self)@.after_chunk(*disk, offset as int, 4),
    {
        let mut bytes: Vec<u8> = vec![0u8; 4];
        match self.read_chunk_exact(disk, bytes.as_mut_slice(), offset) {
            Ok(()) => bytes.as_slice().get_i32_at(0),
            Err(()) => None,
        }
    }

    /// Reads a signed 32-bit integer, big-endian, at `offset`.
    pub fn read_i32_be(&mut self, disk: &Disk, offset: usize) -> (r: Result<i32, DecodeError>)
        ensures
            r == (match old(self)@.chunk(*disk, offset as int, 4) {
                Some(b) => Ok::<i32, DecodeError>(be_i32(b, 0)),
                None => Err::<i32, DecodeError>(DecodeError::ReadField),
            }),
            final(self)@ == old(self)@.after_chunk(*disk, offset as int, 4),
    {
        match self.get_i32_at_be(disk, offset) {
            Some(v) => Ok(v),
            None => Err(DecodeError::ReadField),
        }
    }

    /// Reads a signed 32-bit integer, big-endian, at `offset`; `None` where it cannot be read.
    pub fn get_i32_at_be(&mut self, disk: &Disk, offset: usize) -> (r: Option<i32>)
        ensures
            r == (match old(self)@.chunk(*disk, offset as int, 4) {
                Some(b) => Some(be_i32(b, 0)),
                None => None::<i32>,
            }),
            final(self)@ == old(self)@.after_chunk(*disk, offset as int, 4),
    {
        let mut bytes: Vec<u8> = vec![0u8; 4];
        match self.read_chunk_exact(disk, bytes.as_mut_slice(), offset) {
            Ok(()) => bytes.as_slice().get_i32_at_be(0),
            Err(()) => None,
        }
    }

    /// Reads a signed 64-bit integer, little-endian, at `offset`.
    pub fn read_i64(&mut self, disk: &Disk, offset: usize) -> (r: Result<i64, DecodeError>)
        ensures
            r == (match old(self)@.chunk(*disk, offset as int, 8) {
                Some(b) => Ok::<i64, DecodeError>(le_i64(b, 0)),
                None => Err::<i64, DecodeError>(DecodeError::ReadField),
            }),
            final(self)@ == old(self)@.after_chunk(*disk, offset as int, 8),
    {
        match self.get_i64_at(disk, offset) {
            Some(v) => Ok(v),
            None => Err(DecodeError::ReadField),
        }
    }

    /// Reads a signed 64-bit integer, little-endian, at `offset`; `None` where it cannot be read.
    pub fn get_i64_at(&mut self, disk: &Disk, offset: usize) -> (r: Option<i64>)
        ensures
            r == (match old(self)@.chunk(*disk, offset as int, 8) {
                Some(b) => Some(le_i64(b, 0)),
                None => None::<i64>,
            }),
            final(self)@ == old(self)@.after_chunk(*disk, offset as int, 8),
    {
        let mut bytes: Vec<u8> = vec![0u8; 8];
        match self.read_chunk_exact(disk, bytes.as_mut_slice(), offset) {
            Ok(()) => bytes.as_slice().get_i64_at(0),
            Err(()) => None,
        }
    }

    /// Reads a signed 64-bit integer, big-endian, at `offset`.
    pub fn read_i64_be(&mut self, disk: &Disk, offset: usize) -> (r: Result<i64, DecodeError>)
        ensures
            r == (match old(self)@.chunk(*disk, offset as int, 8) {
                Some(b) => Ok::<i64, DecodeError>(be_i64(b, 0)),
                None => Err::<i64, DecodeError>(DecodeError::ReadField),
            }),
            final(self)@ == old(self)@.after_chunk(*disk, offset as int, 8),
    {
        match self.get_i64_at_be(disk, offset) {
            Some(v) => Ok(v),
            None => Err(DecodeError::ReadField),
        }
    }

    /// Reads a signed 64-bit integer, big-endian, at `offset`; `None` where it cannot be read.
    pub fn get_i64_at_be(&mut self, disk: &Disk, offset: usize) -> (r: Option<i64>)
        ensures
            r == (match old(self)@.chunk(*disk, offset as int, 8) {
                Some(b) => Some(be_i64(b, 0)),
                None => None::<i64>,
            }),
            final(self)@ == old(self)@.after_chunk(*disk, offset as int, 8),
    {
        let mut bytes: Vec<u8> = vec![0u8; 8];
        match self.read_chunk_exact(disk, bytes.as_mut_slice(), offset) {
            Ok(()) => bytes.as_slice().get_i64_at_be(0),
            Err(()) => None,
        }
    }

    /// Reads an unsigned integer as wide as the machine's addresses, little-endian, at `offset`.
    pub fn read_usize(&mut self, disk: &Disk, offset: usize) -> (r: Result<usize, DecodeError>)
        ensures
            r == (match old(self)@.chunk(*disk, offset as int, word_len()) {
                Some(b) => Ok::<usize, DecodeError>(le_usize(b, 0)),
                None => Err::<usize, DecodeError>(DecodeError::ReadField),
            }),
            final(self)@ == old(self)@.after_chunk(*disk, offset as int, word_len()),
    {
        match self.get_usize_at(disk, offset) {
            Some(v) => Ok(v),
            None => Err(DecodeError::ReadField),
        }
    }

    /// Reads an unsigned integer as wide as the machine's addresses, little-endian, at `offset`; `None` where it cannot be read.
    pub fn get_usize_at(&mut self, disk: &Disk, offset: usize) -> (r: Option<usize>)
        ensures
            r == (match old(self)@.chunk(*disk, offset as int, word_len()) {
                Some(b) => Some(le_usize(b, 0)),
                None => None::<usize>,
            }),
            final(self)@ == old(self)@.after_chunk(*disk, offset as int, word_len()),
    {
        let mut bytes: Vec<u8> = vec![0u8; word_size()];
        match self.read_chunk_exact(disk, bytes.as_mut_slice(), offset) {
            Ok(()) => bytes.as_slice().get_usize_at(0),
            Err(()) => None,
        }
    }

    /// Reads an unsigned integer as wide as the machine's addresses, big-endian, at `offset`.
    pub fn read_usize_be(&mut self, disk: &Disk, offset: usize) -> (r: Result<usize, DecodeError>)
        ensures
            r == (match old(self)@.chunk(*disk, offset as int, word_len()) {
                Some(b) => Ok::<usize, DecodeError>(be_usize(b, 0)),
                None => Err::<usize, DecodeError>(DecodeError::ReadField),
            }),
            final(self)@ == old(self)@.after_chunk(*disk, offset as int, word_len()),
    {
        match self.get_usize_at_be(disk, offset) {
            Some(v) => Ok(v),
            None => Err(DecodeError::ReadField),
        }
    }

    /// Reads an unsigned integer as wide as the machine's addresses, big-endian, at `offset`; `None` where it cannot be read.
    pub fn get_usize_at_be(&mut self, disk: &Disk, offset: usize) -> (r: Option<usize>)
        ensures
            r == (match old(self)@.chunk(*disk, offset as int, word_len()) {
                Some(b) => Some(be_usize(b, 0)),
                None => None::<usize>,
            }),
            final(self)@ == old(self)@.after_chunk(*disk, offset as int, word_len()),
    {
        let mut bytes: Vec<u8> = vec![0u8; word_size()];
        match self.read_chunk_exact(disk, bytes.as_mut_slice(), offset) {
            Ok(()) => bytes.as_slice().get_usize_at_be(0),
            Err(()) => None,
        }
    }

    /// Reads a signed integer as wide as the machine's addresses, little-endian, at `offset`.
    pub fn read_isize(&mut self, disk: &Disk, offset: usize) -> (r: Result<isize, DecodeError>)
        ensures
            r == (match old(self)@.chunk(*disk, offset as int, word_len()) {
                Some(b) => Ok::<isize, DecodeError>(le_isize(b, 0)),
                None => Err::<isize, DecodeError>(DecodeError::ReadField),
            }),
            final(self)@ == old(self)@.after_chunk(*disk, offset as int, word_len()),
    {
        match self.get_isize_at(disk, offset) {
            Some(v) => Ok(v),
            None => Err(DecodeError::ReadField),
        }
    }

    /// Reads a signed integer as wide as the machine's addresses, little-endian, at `offset`; `None` where it cannot be read.
    pub fn get_isize_at(&mut self, disk: &Disk, offset: usize) -> (r: Option<isize>)
        ensures
            r == (match old(self)@.chunk(*disk, offset as int, word_len()) {
                Some(b) => Some(le_isize(b, 0)),
                None => None::<isize>,
            }),
            final(self)@ == old(self)@.after_chunk(*disk, offset as int, word_len()),
    {
        let mut bytes: Vec<u8> = vec![0u8; word_size()];
        match self.read_chunk_exact(disk, bytes.as_mut_slice(), offset) {
            Ok(()) => bytes.as_slice().get_isize_at(0),
            Err(()) => None,
        }
    }

    /// Reads a signed integer as wide as the machine's addresses, big-endian, at `offset`.
    pub fn read_isize_be(&mut self, disk: &Disk, offset: usize) -> (r: Result<isize, DecodeError>)
        ensures
            r == (match old(self)@.chunk(*disk, offset as int, word_len()) {
                Some(b) => Ok::<isize, DecodeError>(be_isize(b, 0)),
                None => Err::<isize, DecodeError>(DecodeError::ReadField),
            }),
            final(self)@ == old(self)@.after_chunk(*disk, offset as int, word_len()),
    {
        match self.get_isize_at_be(disk, offset) {
            Some(v) => Ok(v),
            None => Err(DecodeError::ReadField),
        }
    }

    /// Reads a signed integer as wide as the machine's addresses, big-endian, at `offset`; `None` where it cannot be read.
    pub fn get_isize_at_be(&mut self, disk: &Disk, offset: usize) -> (r: Option<isize>)
        ensures
            r == (match old(self)@.chunk(*disk, offset as int, word_len()) {
                Some(b) => Some(be_isize(b, 0)),
                None => None::<isize>,
            }),
            final(self)@ == old(self)@.after_chunk(*disk, offset as int, word_len()),
    {
        let mut bytes: Vec<u8> = vec![0u8; word_size()];
        match self.read_chunk_exact(disk, bytes.as_mut_slice(), offset) {
            Ok(()) => bytes.as_slice().get_isize_at_be(0),
            Err(()) => None,
        }
    }

}

impl FileDataView {
    /// The `len` bytes at `offset`, as a probe sees them: of a streamed source only
    /// that region of the file is read; of any other, all the bytes.
    pub open spec fn probe(self, disk: Disk, offset: int, len: int) -> Option<Seq<u8>> {
        match self {
            FileDataView::Stream { path, start, size } => if offset + len > size || start + offset
                > usize::MAX {
                None
            } else {
                disk.region(path_key(path), start + offset, len)
            },
            _ => match self.contents(disk) {
                Some(c) => if fits(c, offset, len) {
                    Some(c.subrange(offset, offset + len))
                } else {
                    None
                },
                None => None,
            },
        }
    }

    /// The source that the `sub_size` bytes at `sub_start` make; `None` where they lie
    /// beyond the logical size or cannot be read.
    pub open spec fn subfile(self, disk: Disk, sub_start: int, sub_size: int) -> Option<
        FileDataView,
    > {
        match self {
            FileDataView::Stream { path, start, size } => if sub_start + sub_size > size || start
                + sub_start > usize::MAX {
                None
            } else {
                Some(
                    FileDataView::Stream {
                        path,
                        start: (start + sub_start) as usize,
                        size: sub_size as usize,
                    },
                )
            },
            _ => match self.chunk(disk, sub_start, sub_size) {
                Some(c) => Some(FileDataView::Memory { buf: c }),
                None => None,
            },
        }
    }

    /// The source after a part of it has been taken as a source of its own.
    pub open spec fn after_subfile(self, disk: Disk, sub_start: int, sub_size: int) -> FileDataView {
        self.after_chunk(disk, sub_start, sub_size)
    }
}

/// A part of a source that is taken as a source of its own holds the bytes that the
/// part holds in the source.
pub proof fn lemma_subfile_identity(v: FileDataView, disk: Disk, start: int, size: int)
    requires
        0 <= start,
        0 <= size,
        v.contents(disk) is Some,
        v.subfile(disk, start, size) is Some,
    ensures
        v.subfile(disk, start, size)->Some_0.contents(disk) == Some(
            v.contents(disk)->Some_0.subrange(start, start + size),
        ),
{
    let whole = v.contents(disk)->Some_0;
    let part = v.subfile(disk, start, size)->Some_0;
    match v {
        FileDataView::Stream { path, start: first, size: all } => {
            let file = disk.file(path_key(path))->Some_0;
            assert(file.subrange(first + start, first + start + size) =~= file.subrange(
                first as int,
                first + all,
            ).subrange(start, start + size));
        },
        _ => {},
    }
}

/// A probe of a streamed source reads the region that it asks for and no more: on
/// two disks whose files agree on that region it gives the same, whatever else the
/// files hold.
pub proof fn lemma_probe_reads_its_region(
    path: Seq<char>,
    start: usize,
    size: usize,
    a: Disk,
    b: Disk,
    offset: int,
    len: int,
)
    requires
        0 <= offset,
        0 <= len,
        a.region(path_key(path), start + offset, len) == b.region(
            path_key(path),
            start + offset,
            len,
        ),
    ensures
        (FileDataView::Stream { path, start, size }).probe(a, offset, len) == (FileDataView::Stream {
            path,
            start,
            size,
        }).probe(b, offset, len),
{
}

/// Reading leaves the bytes of a source what they were: neither a read of all of
/// them nor a read of a part changes what the source holds.
pub proof fn lemma_read_keeps_contents(v: FileDataView, disk: Disk, start: int, len: int)
    ensures
        v.after_read(disk).contents(disk) == v.contents(disk),
        v.after_chunk(disk, start, len).contents(disk) == v.contents(disk),
        v.settled(disk).contents(disk) == v.contents(disk),
{
}

} // verus!
