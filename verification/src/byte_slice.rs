use crate::error::DecodeError;
use crate::image::{lemma_cell, lemma_cell_bound, lemma_cell_of};
use vstd::arithmetic::div_mod::lemma_fundamental_div_mod_converse;
use vstd::prelude::*;

verus! {

/// Whether the `n` bytes that start at `offset` lie within `s`.
pub open spec fn fits(s: Seq<u8>, offset: int, n: int) -> bool {
    0 <= offset && offset + n <= s.len()
}

/// The 8-bit unsigned integer whose little-endian bytes start at `offset` in `s`.
pub open spec fn le_u8(s: Seq<u8>, offset: int) -> u8 {
    (s[offset] as int) as u8
}

/// The 8-bit two's-complement integer whose little-endian bytes start at `offset` in `s`.
pub open spec fn le_i8(s: Seq<u8>, offset: int) -> i8 {
    let v = le_u8(s, offset) as int;
    if v < 0x80 {
        v as i8
    } else {
        (v - 0x100) as i8
    }
}

/// The 8-bit unsigned integer whose big-endian bytes start at `offset` in `s`.
pub open spec fn be_u8(s: Seq<u8>, offset: int) -> u8 {
    (s[offset] as int) as u8
}

/// The 8-bit two's-complement integer whose big-endian bytes start at `offset` in `s`.
pub open spec fn be_i8(s: Seq<u8>, offset: int) -> i8 {
    let v = be_u8(s, offset) as int;
    if v < 0x80 {
        v as i8
    } else {
        (v - 0x100) as i8
    }
}

/// The 16-bit unsigned integer whose little-endian bytes start at `offset` in `s`.
pub open spec fn le_u16(s: Seq<u8>, offset: int) -> u16 {
    (s[offset] as int + 0x100 * (s[offset + 1] as int)) as u16
}

/// The 16-bit two's-complement integer whose little-endian bytes start at `offset` in `s`.
pub open spec fn le_i16(s: Seq<u8>, offset: int) -> i16 {
    let v = le_u16(s, offset) as int;
    if v < 0x8000 {
        v as i16
    } else {
        (v - 0x10000) as i16
    }
}

/// The 16-bit unsigned integer whose big-endian bytes start at `offset` in `s`.
pub open spec fn be_u16(s: Seq<u8>, offset: int) -> u16 {
    (s[offset + 1] as int + 0x100 * (s[offset] as int)) as u16
}

/// The 16-bit two's-complement integer whose big-endian bytes start at `offset` in `s`.
pub open spec fn be_i16(s: Seq<u8>, offset: int) -> i16 {
    let v = be_u16(s, offset) as int;
    if v < 0x8000 {
        v as i16
    } else {
        (v - 0x10000) as i16
    }
}

/// The 32-bit unsigned integer whose little-endian bytes start at `offset` in `s`.
pub open spec fn le_u32(s: Seq<u8>, offset: int) -> u32 {
    (s[offset] as int + 0x100 * (s[offset + 1] as int) + 0x10000 * (s[offset + 2] as int) + 0x1000000 * (s[offset + 3] as int)) as u32
}

/// The 32-bit two's-complement integer whose little-endian bytes start at `offset` in `s`.
pub open spec fn le_i32(s: Seq<u8>, offset: int) -> i32 {
    let v = le_u32(s, offset) as int;
    if v < 0x80000000 {
        v as i32
    } else {
        (v - 0x100000000) as i32
    }
}

/// The 32-bit unsigned integer whose big-endian bytes start at `offset` in `s`.
pub open spec fn be_u32(s: Seq<u8>, offset: int) -> u32 {
    (s[offset + 3] as int + 0x100 * (s[offset + 2] as int) + 0x10000 * (s[offset + 1] as int) + 0x1000000 * (s[offset] as int)) as u32
}

/// The 32-bit two's-complement integer whose big-endian bytes start at `offset` in `s`.
pub open spec fn be_i32(s: Seq<u8>, offset: int) -> i32 {
    let v = be_u32(s, offset) as int;
    if v < 0x80000000 {
        v as i32
    } else {
        (v - 0x100000000) as i32
    }
}

/// The 64-bit unsigned integer whose little-endian bytes start at `offset` in `s`.
pub open spec fn le_u64(s: Seq<u8>, offset: int) -> u64 {
    (s[offset] as int + 0x100 * (s[offset + 1] as int) + 0x10000 * (s[offset + 2] as int) + 0x1000000 * (s[offset + 3] as int) + 0x100000000 * (s[offset + 4] as int) + 0x10000000000 * (s[offset + 5] as int) + 0x1000000000000 * (s[offset + 6] as int) + 0x100000000000000 * (s[offset + 7] as int)) as u64
}

/// The 64-bit two's-complement integer whose little-endian bytes start at `offset` in `s`.
pub open spec fn le_i64(s: Seq<u8>, offset: int) -> i64 {
    let v = le_u64(s, offset) as int;
    if v < 0x8000000000000000 {
        v as i64
    } else {
        (v - 0x10000000000000000) as i64
    }
}

/// The 64-bit unsigned integer whose big-endian bytes start at `offset` in `s`.
pub open spec fn be_u64(s: Seq<u8>, offset: int) -> u64 {
    (s[offset + 7] as int + 0x100 * (s[offset + 6] as int) + 0x10000 * (s[offset + 5] as int) + 0x1000000 * (s[offset + 4] as int) + 0x100000000 * (s[offset + 3] as int) + 0x10000000000 * (s[offset + 2] as int) + 0x1000000000000 * (s[offset + 1] as int) + 0x100000000000000 * (s[offset] as int)) as u64
}

/// The 64-bit two's-complement integer whose big-endian bytes start at `offset` in `s`.
pub open spec fn be_i64(s: Seq<u8>, offset: int) -> i64 {
    let v = be_u64(s, offset) as int;
    if v < 0x8000000000000000 {
        v as i64
    } else {
        (v - 0x10000000000000000) as i64
    }
}

/// The byte of `s` at `i`, or zero where `s` has no such byte.
pub open spec fn byte_or_zero(s: Seq<u8>, i: int) -> u8 {
    if 0 <= i < s.len() {
        s[i]
    } else {
        0
    }
}

/// Where the byte at column `x`, row `y` of an image lies in its block-interleaved
/// layout: blocks of 16 bytes by 8 rows, stored one after another in raster order.
pub open spec fn psp_source_index(width_bytes: int, x: int, y: int) -> int {
    ((y / 8) * (width_bytes / 16) + x / 16) * 128 + (y % 8) * 16 + x % 16
}

/// The row-major image of `width_bytes` by `height` bytes read out of the
/// block-interleaved bytes `s`; bytes that `s` lacks read as zero.
pub open spec fn unswizzled(s: Seq<u8>, width_bytes: int, height: int) -> Seq<u8> {
    Seq::new((width_bytes * height) as nat, |i: int| unswizzled_byte(s, width_bytes, i))
}

/// The byte at position `i` of the row-major image of that width read out of `s`.
pub open spec fn unswizzled_byte(s: Seq<u8>, width_bytes: int, i: int) -> u8 {
    byte_or_zero(s, psp_source_index(width_bytes, i % width_bytes, i / width_bytes))
}

/// Where the byte at position `j` of a block-interleaved layout lies in the row-major
/// image of that width.
pub open spec fn psp_linear_index(width_bytes: int, j: int) -> int {
    let block = j / 128;
    let within = j % 128;
    let x = (block % (width_bytes / 16)) * 16 + within % 16;
    let y = (block / (width_bytes / 16)) * 8 + within / 16;
    y * width_bytes + x
}

/// The block-interleaved layout of the row-major image `s` of `width_bytes` by `height` bytes.
pub open spec fn swizzled(s: Seq<u8>, width_bytes: int, height: int) -> Seq<u8> {
    Seq::new((width_bytes * height) as nat, |j: int| s[psp_linear_index(width_bytes, j)])
}

/// In an image whose width is a multiple of 16 and whose height is a multiple of 8,
/// the place of a byte in the block-interleaved layout lies within the layout, and
/// leads back to the place of the byte in the image.
pub proof fn lemma_psp_index_inverse(width_bytes: int, height: int, i: int)
    requires
        0 < width_bytes,
        0 < height,
        width_bytes % 16 == 0,
        height % 8 == 0,
        0 <= i < width_bytes * height,
    ensures
        0 <= psp_source_index(width_bytes, i % width_bytes, i / width_bytes) < width_bytes
            * height,
        psp_linear_index(
            width_bytes,
            psp_source_index(width_bytes, i % width_bytes, i / width_bytes),
        ) == i,
{
    let x = i % width_bytes;
    let y = i / width_bytes;
    lemma_cell_of(width_bytes, height, i);
    let per_row = width_bytes / 16;
    let rows = height / 8;
    let block = (y / 8) * per_row + x / 16;
    let within = (y % 8) * 16 + x % 16;
    let j = psp_source_index(width_bytes, x, y);
    assert(j == block * 128 + within);
    lemma_cell(per_row, x / 16, y / 8);
    lemma_cell_bound(per_row, rows, x / 16, y / 8);
    lemma_cell(128, within, block);
    lemma_cell(16, x % 16, y % 8);
    assert(block * 128 + within < per_row * rows * 128) by (nonlinear_arith)
        requires
            0 <= block < per_row * rows,
            0 <= within < 128,
    ;
    assert(per_row * rows * 128 == width_bytes * height) by (nonlinear_arith)
        requires
            width_bytes == per_row * 16,
            height == rows * 8,
    ;
}

/// Undoing the block interleaving of the interleaved layout of an image gives the image
/// back, where its width is a multiple of 16 and its height a multiple of 8.
pub proof fn lemma_swizzle_involution(s: Seq<u8>, width_bytes: int, height: int)
    requires
        0 <= width_bytes,
        0 <= height,
        width_bytes % 16 == 0,
        height % 8 == 0,
        s.len() == width_bytes * height,
    ensures
        unswizzled(swizzled(s, width_bytes, height), width_bytes, height) == s,
{
    let packed = swizzled(s, width_bytes, height);
    let back = unswizzled(packed, width_bytes, height);
    assert forall|i: int| 0 <= i < s.len() implies back[i] == s[i] by {
        if width_bytes == 0 || height == 0 {
            assert(width_bytes * height == 0) by (nonlinear_arith)
                requires
                    width_bytes == 0 || height == 0,
            ;
        } else {
            lemma_psp_index_inverse(width_bytes, height, i);
        }
    }
    assert(back =~= s);
}

/// The number of bytes of an integer as wide as the machine's addresses: four or eight.
pub open spec fn word_len() -> int {
    if usize::MAX > 0xFFFF_FFFF {
        8
    } else {
        4
    }
}

/// The unsigned integer as wide as the machine's addresses whose little-endian bytes
/// start at `offset` in `s`.
pub open spec fn le_usize(s: Seq<u8>, offset: int) -> usize {
    if usize::MAX > 0xFFFF_FFFF {
        le_u64(s, offset) as usize
    } else {
        le_u32(s, offset) as usize
    }
}

/// The unsigned integer as wide as the machine's addresses whose big-endian bytes
/// start at `offset` in `s`.
pub open spec fn be_usize(s: Seq<u8>, offset: int) -> usize {
    if usize::MAX > 0xFFFF_FFFF {
        be_u64(s, offset) as usize
    } else {
        be_u32(s, offset) as usize
    }
}

/// The two's-complement integer as wide as the machine's addresses whose little-endian
/// bytes start at `offset` in `s`.
pub open spec fn le_isize(s: Seq<u8>, offset: int) -> isize {
    if usize::MAX > 0xFFFF_FFFF {
        le_i64(s, offset) as isize
    } else {
        le_i32(s, offset) as isize
    }
}

/// The two's-complement integer as wide as the machine's addresses whose big-endian
/// bytes start at `offset` in `s`.
pub open spec fn be_isize(s: Seq<u8>, offset: int) -> isize {
    if usize::MAX > 0xFFFF_FFFF {
        be_i64(s, offset) as isize
    } else {
        be_i32(s, offset) as isize
    }
}

/// The number of bytes of an integer as wide as the machine's addresses.
pub fn word_size() -> (r: usize)
    ensures
        r == word_len(),
{
    if usize::MAX as u64 > 0xFFFF_FFFF {
        8
    } else {
        4
    }
}

/// Bounds-checked readers over a run of bytes.
pub trait ByteSlice {
    /// The bytes read from.
    spec fn bytes(&self) -> Seq<u8>;

    /// Whether `needle` stands at `offset`.
    fn starts_with_at(&self, needle: &[u8], offset: usize) -> (r: bool)
        ensures
            r == (fits(self.bytes(), offset as int, needle@.len() as int) && self.bytes().subrange(
                offset as int,
                offset + needle@.len(),
            ) == needle@),
    ;

    /// The `len` bytes at `offset`; fails, naming the region, when they do not lie within the bytes.
    fn read_bytes(&self, offset: usize, len: usize, name: &'static str) -> (r: Result<
        &[u8],
        DecodeError,
    >)
        ensures
            fits(self.bytes(), offset as int, len as int) ==> r is Ok && r->Ok_0@
                == self.bytes().subrange(offset as int, offset + len),
            !fits(self.bytes(), offset as int, len as int) ==> r == Err::<&[u8], DecodeError>(
                DecodeError::ReadRegion { name },
            ),
    ;

    /// Reads an unsigned 8-bit integer, little-endian, at `offset`; fails when it does not lie within the bytes.
    fn read_u8(&self, offset: usize) -> (r: Result<u8, DecodeError>)
        ensures
            r == (if fits(self.bytes(), offset as int, 1) {
                Ok::<u8, DecodeError>(le_u8(self.bytes(), offset as int))
            } else {
                Err::<u8, DecodeError>(DecodeError::ReadField)
            }),
    ;

    /// Reads an unsigned 8-bit integer, little-endian, at `offset`; `None` when it does not lie within the bytes.
    fn get_u8_at(&self, offset: usize) -> (r: Option<u8>)
        ensures
            r == (if fits(self.bytes(), offset as int, 1) {
                Some(le_u8(self.bytes(), offset as int))
            } else {
                None::<u8>
            }),
    ;

    /// Reads an unsigned 8-bit integer, big-endian, at `offset`; fails when it does not lie within the bytes.
    fn read_u8_be(&self, offset: usize) -> (r: Result<u8, DecodeError>)
        ensures
            r == (if fits(self.bytes(), offset as int, 1) {
                Ok::<u8, DecodeError>(be_u8(self.bytes(), offset as int))
            } else {
                Err::<u8, DecodeError>(DecodeError::ReadField)
            }),
    ;

    /// Reads an unsigned 8-bit integer, big-endian, at `offset`; `None` when it does not lie within the bytes.
    fn get_u8_at_be(&self, offset: usize) -> (r: Option<u8>)
        ensures
            r == (if fits(self.bytes(), offset as int, 1) {
                Some(be_u8(self.bytes(), offset as int))
            } else {
                None::<u8>
            }),
    ;

    /// Reads an unsigned 16-bit integer, little-endian, at `offset`; fails when it does not lie within the bytes.
    fn read_u16(&self, offset: usize) -> (r: Result<u16, DecodeError>)
        ensures
            r == (if fits(self.bytes(), offset as int, 2) {
                Ok::<u16, DecodeError>(le_u16(self.bytes(), offset as int))
            } else {
                Err::<u16, DecodeError>(DecodeError::ReadField)
            }),
    ;

    /// Reads an unsigned 16-bit integer, little-endian, at `offset`; `None` when it does not lie within the bytes.
    fn get_u16_at(&self, offset: usize) -> (r: Option<u16>)
        ensures
            r == (if fits(self.bytes(), offset as int, 2) {
                Some(le_u16(self.bytes(), offset as int))
            } else {
                None::<u16>
            }),
    ;

    /// Reads an unsigned 16-bit integer, big-endian, at `offset`; fails when it does not lie within the bytes.
    fn read_u16_be(&self, offset: usize) -> (r: Result<u16, DecodeError>)
        ensures
            r == (if fits(self.bytes(), offset as int, 2) {
                Ok::<u16, DecodeError>(be_u16(self.bytes(), offset as int))
            } else {
                Err::<u16, DecodeError>(DecodeError::ReadField)
            }),
    ;

    /// Reads an unsigned 16-bit integer, big-endian, at `offset`; `None` when it does not lie within the bytes.
    fn get_u16_at_be(&self, offset: usize) -> (r: Option<u16>)
        ensures
            r == (if fits(self.bytes(), offset as int, 2) {
                Some(be_u16(self.bytes(), offset as int))
            } else {
                None::<u16>
            }),
    ;

    /// Reads an unsigned 32-bit integer, little-endian, at `offset`; fails when it does not lie within the bytes.
    fn read_u32(&self, offset: usize) -> (r: Result<u32, DecodeError>)
        ensures
            r == (if fits(self.bytes(), offset as int, 4) {
                Ok::<u32, DecodeError>(le_u32(self.bytes(), offset as int))
            } else {
                Err::<u32, DecodeError>(DecodeError::ReadField)
            }),
    ;

    /// Reads an unsigned 32-bit integer, little-endian, at `offset`; `None` when it does not lie within the bytes.
    fn get_u32_at(&self, offset: usize) -> (r: Option<u32>)
        ensures
            r == (if fits(self.bytes(), offset as int, 4) {
                Some(le_u32(self.bytes(), offset as int))
            } else {
                None::<u32>
            }),
    ;

    /// Reads an unsigned 32-bit integer, big-endian, at `offset`; fails when it does not lie within the bytes.
    fn read_u32_be(&self, offset: usize) -> (r: Result<u32, DecodeError>)
        ensures
            r == (if fits(self.bytes(), offset as int, 4) {
                Ok::<u32, DecodeError>(be_u32(self.bytes(), offset as int))
            } else {
                Err::<u32, DecodeError>(DecodeError::ReadField)
            }),
    ;

    /// Reads an unsigned 32-bit integer, big-endian, at `offset`; `None` when it does not lie within the bytes.
    fn get_u32_at_be(&self, offset: usize) -> (r: Option<u32>)
        ensures
            r == (if fits(self.bytes(), offset as int, 4) {
                Some(be_u32(self.bytes(), offset as int))
            } else {
                None::<u32>
            }),
    ;

    /// Reads an unsigned 64-bit integer, little-endian, at `offset`; fails when it does not lie within the bytes.
    fn read_u64(&self, offset: usize) -> (r: Result<u64, DecodeError>)
        ensures
            r == (if fits(self.bytes(), offset as int, 8) {
                Ok::<u64, DecodeError>(le_u64(self.bytes(), offset as int))
            } else {
                Err::<u64, DecodeError>(DecodeError::ReadField)
            }),
    ;

    /// Reads an unsigned 64-bit integer, little-endian, at `offset`; `None` when it does not lie within the bytes.
    fn get_u64_at(&self, offset: usize) -> (r: Option<u64>)
        ensures
            r == (if fits(self.bytes(), offset as int, 8) {
                Some(le_u64(self.bytes(), offset as int))
            } else {
                None::<u64>
            }),
    ;

    /// Reads an unsigned 64-bit integer, big-endian, at `offset`; fails when it does not lie within the bytes.
    fn read_u64_be(&self, offset: usize) -> (r: Result<u64, DecodeError>)
        ensures
            r == (if fits(self.bytes(), offset as int, 8) {
                Ok::<u64, DecodeError>(be_u64(self.bytes(), offset as int))
            } else {
                Err::<u64, DecodeError>(DecodeError::ReadField)
            }),
    ;

    /// Reads an unsigned 64-bit integer, big-endian, at `offset`; `None` when it does not lie within the bytes.
    fn get_u64_at_be(&self, offset: usize) -> (r: Option<u64>)
        ensures
            r == (if fits(self.bytes(), offset as int, 8) {
                Some(be_u64(self.bytes(), offset as int))
            } else {
                None::<u64>
            }),
    ;

    /// Reads a signed 8-bit integer, little-endian, at `offset`; fails when it does not lie within the bytes.
    fn read_i8(&self, offset: usize) -> (r: Result<i8, DecodeError>)
        ensures
            r == (if fits(self.bytes(), offset as int, 1) {
                Ok::<i8, DecodeError>(le_i8(self.bytes(), offset as int))
            } else {
                Err::<i8, DecodeError>(DecodeError::ReadField)
            }),
    ;

    /// Reads a signed 8-bit integer, little-endian, at `offset`; `None` when it does not lie within the bytes.
    fn get_i8_at(&self, offset: usize) -> (r: Option<i8>)
        ensures
            r == (if fits(self.bytes(), offset as int, 1) {
                Some(le_i8(self.bytes(), offset as int))
            } else {
                None::<i8>
            }),
    ;

    /// Reads a signed 8-bit integer, big-endian, at `offset`; fails when it does not lie within the bytes.
    fn read_i8_be(&self, offset: usize) -> (r: Result<i8, DecodeError>)
        ensures
            r == (if fits(self.bytes(), offset as int, 1) {
                Ok::<i8, DecodeError>(be_i8(self.bytes(), offset as int))
            } else {
                Err::<i8, DecodeError>(DecodeError::ReadField)
            }),
    ;

    /// Reads a signed 8-bit integer, big-endian, at `offset`; `None` when it does not lie within the bytes.
    fn get_i8_at_be(&self, offset: usize) -> (r: Option<i8>)
        ensures
            r == (if fits(self.bytes(), offset as int, 1) {
                Some(be_i8(self.bytes(), offset as int))
            } else {
                None::<i8>
            }),
    ;

    /// Reads a signed 16-bit integer, little-endian, at `offset`; fails when it does not lie within the bytes.
    fn read_i16(&self, offset: usize) -> (r: Result<i16, DecodeError>)
        ensures
            r == (if fits(self.bytes(), offset as int, 2) {
                Ok::<i16, DecodeError>(le_i16(self.bytes(), offset as int))
            } else {
                Err::<i16, DecodeError>(DecodeError::ReadField)
            }),
    ;

    /// Reads a signed 16-bit integer, little-endian, at `offset`; `None` when it does not lie within the bytes.
    fn get_i16_at(&self, offset: usize) -> (r: Option<i16>)
        ensures
            r == (if fits(self.bytes(), offset as int, 2) {
                Some(le_i16(self.bytes(), offset as int))
            } else {
                None::<i16>
            }),
    ;

    /// Reads a signed 16-bit integer, big-endian, at `offset`; fails when it does not lie within the bytes.
    fn read_i16_be(&self, offset: usize) -> (r: Result<i16, DecodeError>)
        ensures
            r == (if fits(self.bytes(), offset as int, 2) {
                Ok::<i16, DecodeError>(be_i16(self.bytes(), offset as int))
            } else {
                Err::<i16, DecodeError>(DecodeError::ReadField)
            }),
    ;

    /// Reads a signed 16-bit integer, big-endian, at `offset`; `None` when it does not lie within the bytes.
    fn get_i16_at_be(&self, offset: usize) -> (r: Option<i16>)
        ensures
            r == (if fits(self.bytes(), offset as int, 2) {
                Some(be_i16(self.bytes(), offset as int))
            } else {
                None::<i16>
            }),
    ;

    /// Reads a signed 32-bit integer, little-endian, at `offset`; fails when it does not lie within the bytes.
    fn read_i32(&self, offset: usize) -> (r: Result<i32, DecodeError>)
        ensures
            r == (if fits(self.bytes(), offset as int, 4) {
                Ok::<i32, DecodeError>(le_i32(self.bytes(), offset as int))
            } else {
                Err::<i32, DecodeError>(DecodeError::ReadField)
            }),
    ;

    /// Reads a signed 32-bit integer, little-endian, at `offset`; `None` when it does not lie within the bytes.
    fn get_i32_at(&self, offset: usize) -> (r: Option<i32>)
        ensures
            r == (if fits(self.bytes(), offset as int, 4) {
                Some(le_i32(self.bytes(), offset as int))
            } else {
                None::<i32>
            }),
    ;

    /// Reads a signed 32-bit integer, big-endian, at `offset`; fails when it does not lie within the bytes.
    fn read_i32_be(&self, offset: usize) -> (r: Result<i32, DecodeError>)
        ensures
            r == (if fits(self.bytes(), offset as int, 4) {
                Ok::<i32, DecodeError>(be_i32(self.bytes(), offset as int))
            } else {
                Err::<i32, DecodeError>(DecodeError::ReadField)
            }),
    ;

    /// Reads a signed 32-bit integer, big-endian, at `offset`; `None` when it does not lie within the bytes.
    fn get_i32_at_be(&self, offset: usize) -> (r: Option<i32>)
        ensures
            r == (if fits(self.bytes(), offset as int, 4) {
                Some(be_i32(self.bytes(), offset as int))
            } else {
                None::<i32>
            }),
    ;

    /// Reads a signed 64-bit integer, little-endian, at `offset`; fails when it does not lie within the bytes.
    fn read_i64(&self, offset: usize) -> (r: Result<i64, DecodeError>)
        ensures
            r == (if fits(self.bytes(), offset as int, 8) {
                Ok::<i64, DecodeError>(le_i64(self.bytes(), offset as int))
            } else {
                Err::<i64, DecodeError>(DecodeError::ReadField)
            }),
    ;

    /// Reads a signed 64-bit integer, little-endian, at `offset`; `None` when it does not lie within the bytes.
    fn get_i64_at(&self, offset: usize) -> (r: Option<i64>)
        ensures
            r == (if fits(self.bytes(), offset as int, 8) {
                Some(le_i64(self.bytes(), offset as int))
            } else {
                None::<i64>
            }),
    ;

    /// Reads a signed 64-bit integer, big-endian, at `offset`; fails when it does not lie within the bytes.
    fn read_i64_be(&self, offset: usize) -> (r: Result<i64, DecodeError>)
        ensures
            r == (if fits(self.bytes(), offset as int, 8) {
                Ok::<i64, DecodeError>(be_i64(self.bytes(), offset as int))
            } else {
                Err::<i64, DecodeError>(DecodeError::ReadField)
            }),
    ;

    /// Reads a signed 64-bit integer, big-endian, at `offset`; `None` when it does not lie within the bytes.
    fn get_i64_at_be(&self, offset: usize) -> (r: Option<i64>)
        ensures
            r == (if fits(self.bytes(), offset as int, 8) {
                Some(be_i64(self.bytes(), offset as int))
            } else {
                None::<i64>
            }),
    ;

    /// Reads an unsigned integer as wide as the machine's addresses, little-endian, at `offset`; fails when it does not lie within the bytes.
    fn read_usize(&self, offset: usize) -> (r: Result<usize, DecodeError>)
        ensures
            r == (if fits(self.bytes(), offset as int, word_len()) {
                Ok::<usize, DecodeError>(le_usize(self.bytes(), offset as int))
            } else {
                Err::<usize, DecodeError>(DecodeError::ReadField)
            }),
    ;

    /// Reads an unsigned integer as wide as the machine's addresses, little-endian, at `offset`; `None` when it does not lie within the bytes.
    fn get_usize_at(&self, offset: usize) -> (r: Option<usize>)
        ensures
            r == (if fits(self.bytes(), offset as int, word_len()) {
                Some(le_usize(self.bytes(), offset as int))
            } else {
                None::<usize>
            }),
    ;

    /// Reads an unsigned integer as wide as the machine's addresses, big-endian, at `offset`; fails when it does not lie within the bytes.
    fn read_usize_be(&self, offset: usize) -> (r: Result<usize, DecodeError>)
        ensures
            r == (if fits(self.bytes(), offset as int, word_len()) {
                Ok::<usize, DecodeError>(be_usize(self.bytes(), offset as int))
            } else {
                Err::<usize, DecodeError>(DecodeError::ReadField)
            }),
    ;

    /// Reads an unsigned integer as wide as the machine's addresses, big-endian, at `offset`; `None` when it does not lie within the bytes.
    fn get_usize_at_be(&self, offset: usize) -> (r: Option<usize>)
        ensures
            r == (if fits(self.bytes(), offset as int, word_len()) {
                Some(be_usize(self.bytes(), offset as int))
            } else {
                None::<usize>
            }),
    ;

    /// Reads a signed integer as wide as the machine's addresses, little-endian, at `offset`; fails when it does not lie within the bytes.
    fn read_isize(&self, offset: usize) -> (r: Result<isize, DecodeError>)
        ensures
            r == (if fits(self.bytes(), offset as int, word_len()) {
                Ok::<isize, DecodeError>(le_isize(self.bytes(), offset as int))
            } else {
                Err::<isize, DecodeError>(DecodeError::ReadField)
            }),
    ;

    /// Reads a signed integer as wide as the machine's addresses, little-endian, at `offset`; `None` when it does not lie within the bytes.
    fn get_isize_at(&self, offset: usize) -> (r: Option<isize>)
        ensures
            r == (if fits(self.bytes(), offset as int, word_len()) {
                Some(le_isize(self.bytes(), offset as int))
            } else {
                None::<isize>
            }),
    ;

    /// Reads a signed integer as wide as the machine's addresses, big-endian, at `offset`; fails when it does not lie within the bytes.
    fn read_isize_be(&self, offset: usize) -> (r: Result<isize, DecodeError>)
        ensures
            r == (if fits(self.bytes(), offset as int, word_len()) {
                Ok::<isize, DecodeError>(be_isize(self.bytes(), offset as int))
            } else {
                Err::<isize, DecodeError>(DecodeError::ReadField)
            }),
    ;

    /// Reads a signed integer as wide as the machine's addresses, big-endian, at `offset`; `None` when it does not lie within the bytes.
    fn get_isize_at_be(&self, offset: usize) -> (r: Option<isize>)
        ensures
            r == (if fits(self.bytes(), offset as int, word_len()) {
                Some(be_isize(self.bytes(), offset as int))
            } else {
                None::<isize>
            }),
    ;

    /// Undoes the block interleaving of a `width_bytes` by `height` image.
    fn unswizzled_psp(&self, width_bytes: u32, height: u32) -> (r: Vec<u8>)
        requires
            width_bytes * height <= usize::MAX,
        ensures
            r@ == unswizzled(self.bytes(), width_bytes as int, height as int),
    ;
}

impl ByteSlice for [u8] {
    open spec fn bytes(&self) -> Seq<u8> {
        self@
    }

    fn starts_with_at(&self, needle: &[u8], offset: usize) -> (r: bool) {
        if needle.len() > self.len() || offset > self.len() - needle.len() {
            return false;
        }
        let mut i: usize = 0;
        while i < needle.len()
            invariant
                i <= needle.len(),
                offset + needle.len() <= self.len(),
                forall|k: int| 0 <= k < i ==> self@[offset + k] == needle@[k],
            decreases needle.len() - i,
        {
            if self[offset + i] != needle[i] {
                proof {
                    let sub = self@.subrange(offset as int, offset + needle@.len());
                    assert(sub[i as int] == self@[offset + i]);
                }
                return false;
            }
            i += 1;
        }
        assert(self@.subrange(offset as int, offset + needle@.len()) =~= needle@);
        true
    }

    fn read_bytes(&self, offset: usize, len: usize, name: &'static str) -> (r: Result<
        &[u8],
        DecodeError,
    >) {
        if len <= self.len() && offset <= self.len() - len {
            Ok(&self[offset..offset + len])
        } else {
            Err(DecodeError::ReadRegion { name })
        }
    }

    fn read_u8(&self, offset: usize) -> (r: Result<u8, DecodeError>) {
        match self.get_u8_at(offset) {
            Some(v) => Ok(v),
            None => Err(DecodeError::ReadField),
        }
    }

    fn get_u8_at(&self, offset: usize) -> (r: Option<u8>) {
        if self.len() >= 1 && offset <= self.len() - 1 {
            Some(self[offset])
        } else {
            None
        }
    }

    fn read_u8_be(&self, offset: usize) -> (r: Result<u8, DecodeError>) {
        match self.get_u8_at_be(offset) {
            Some(v) => Ok(v),
            None => Err(DecodeError::ReadField),
        }
    }

    fn get_u8_at_be(&self, offset: usize) -> (r: Option<u8>) {
        if self.len() >= 1 && offset <= self.len() - 1 {
            Some(self[offset])
        } else {
            None
        }
    }

    fn read_u16(&self, offset: usize) -> (r: Result<u16, DecodeError>) {
        match self.get_u16_at(offset) {
            Some(v) => Ok(v),
            None => Err(DecodeError::ReadField),
        }
    }

    fn get_u16_at(&self, offset: usize) -> (r: Option<u16>) {
        if self.len() >= 2 && offset <= self.len() - 2 {
            Some((self[offset] as u16) + (self[offset + 1] as u16) * 0x100)
        } else {
            None
        }
    }

    fn read_u16_be(&self, offset: usize) -> (r: Result<u16, DecodeError>) {
        match self.get_u16_at_be(offset) {
            Some(v) => Ok(v),
            None => Err(DecodeError::ReadField),
        }
    }

    fn get_u16_at_be(&self, offset: usize) -> (r: Option<u16>) {
        if self.len() >= 2 && offset <= self.len() - 2 {
            Some((self[offset + 1] as u16) + (self[offset] as u16) * 0x100)
        } else {
            None
        }
    }

    fn read_u32(&self, offset: usize) -> (r: Result<u32, DecodeError>) {
        match self.get_u32_at(offset) {
            Some(v) => Ok(v),
            None => Err(DecodeError::ReadField),
        }
    }

    fn get_u32_at(&self, offset: usize) -> (r: Option<u32>) {
        if self.len() >= 4 && offset <= self.len() - 4 {
            Some((self[offset] as u32) + (self[offset + 1] as u32) * 0x100 + (self[offset + 2] as u32) * 0x10000 + (self[offset + 3] as u32) * 0x1000000)
        } else {
            None
        }
    }

    fn read_u32_be(&self, offset: usize) -> (r: Result<u32, DecodeError>) {
        match self.get_u32_at_be(offset) {
            Some(v) => Ok(v),
            None => Err(DecodeError::ReadField),
        }
    }

    fn get_u32_at_be(&self, offset: usize) -> (r: Option<u32>) {
        if self.len() >= 4 && offset <= self.len() - 4 {
            Some((self[offset + 3] as u32) + (self[offset + 2] as u32) * 0x100 + (self[offset + 1] as u32) * 0x10000 + (self[offset] as u32) * 0x1000000)
        } else {
            None
        }
    }

    fn read_u64(&self, offset: usize) -> (r: Result<u64, DecodeError>) {
        match self.get_u64_at(offset) {
            Some(v) => Ok(v),
            None => Err(DecodeError::ReadField),
        }
    }

    fn get_u64_at(&self, offset: usize) -> (r: Option<u64>) {
        if self.len() >= 8 && offset <= self.len() - 8 {
            Some((self[offset] as u64) + (self[offset + 1] as u64) * 0x100 + (self[offset + 2] as u64) * 0x10000 + (self[offset + 3] as u64) * 0x1000000 + (self[offset + 4] as u64) * 0x100000000 + (self[offset + 5] as u64) * 0x10000000000 + (self[offset + 6] as u64) * 0x1000000000000 + (self[offset + 7] as u64) * 0x100000000000000)
        } else {
            None
        }
    }

    fn read_u64_be(&self, offset: usize) -> (r: Result<u64, DecodeError>) {
        match self.get_u64_at_be(offset) {
            Some(v) => Ok(v),
            None => Err(DecodeError::ReadField),
        }
    }

    fn get_u64_at_be(&self, offset: usize) -> (r: Option<u64>) {
        if self.len() >= 8 && offset <= self.len() - 8 {
            Some((self[offset + 7] as u64) + (self[offset + 6] as u64) * 0x100 + (self[offset + 5] as u64) * 0x10000 + (self[offset + 4] as u64) * 0x1000000 + (self[offset + 3] as u64) * 0x100000000 + (self[offset + 2] as u64) * 0x10000000000 + (self[offset + 1] as u64) * 0x1000000000000 + (self[offset] as u64) * 0x100000000000000)
        } else {
            None
        }
    }

    fn read_i8(&self, offset: usize) -> (r: Result<i8, DecodeError>) {
        match self.get_i8_at(offset) {
            Some(v) => Ok(v),
            None => Err(DecodeError::ReadField),
        }
    }

    fn get_i8_at(&self, offset: usize) -> (r: Option<i8>) {
        if self.len() >= 1 && offset <= self.len() - 1 {
            let v: u8 = self[offset];
            if v < 0x80 {
                Some(v as i8)
            } else {
                Some((v as i16 - 0x100) as i8)
            }
        } else {
            None
        }
    }

    fn read_i8_be(&self, offset: usize) -> (r: Result<i8, DecodeError>) {
        match self.get_i8_at_be(offset) {
            Some(v) => Ok(v),
            None => Err(DecodeError::ReadField),
        }
    }

    fn get_i8_at_be(&self, offset: usize) -> (r: Option<i8>) {
        if self.len() >= 1 && offset <= self.len() - 1 {
            let v: u8 = self[offset];
            if v < 0x80 {
                Some(v as i8)
            } else {
                Some((v as i16 - 0x100) as i8)
            }
        } else {
            None
        }
    }

    fn read_i16(&self, offset: usize) -> (r: Result<i16, DecodeError>) {
        match self.get_i16_at(offset) {
            Some(v) => Ok(v),
            None => Err(DecodeError::ReadField),
        }
    }

    fn get_i16_at(&self, offset: usize) -> (r: Option<i16>) {
        if self.len() >= 2 && offset <= self.len() - 2 {
            let v: u16 = (self[offset] as u16) + (self[offset + 1] as u16) * 0x100;
            if v < 0x8000 {
                Some(v as i16)
            } else {
                Some((v as i32 - 0x10000) as i16)
            }
        } else {
            None
        }
    }

    fn read_i16_be(&self, offset: usize) -> (r: Result<i16, DecodeError>) {
        match self.get_i16_at_be(offset) {
            Some(v) => Ok(v),
            None => Err(DecodeError::ReadField),
        }
    }

    fn get_i16_at_be(&self, offset: usize) -> (r: Option<i16>) {
        if self.len() >= 2 && offset <= self.len() - 2 {
            let v: u16 = (self[offset + 1] as u16) + (self[offset] as u16) * 0x100;
            if v < 0x8000 {
                Some(v as i16)
            } else {
                Some((v as i32 - 0x10000) as i16)
            }
        } else {
            None
        }
    }

    fn read_i32(&self, offset: usize) -> (r: Result<i32, DecodeError>) {
        match self.get_i32_at(offset) {
            Some(v) => Ok(v),
            None => Err(DecodeError::ReadField),
        }
    }

    fn get_i32_at(&self, offset: usize) -> (r: Option<i32>) {
        if self.len() >= 4 && offset <= self.len() - 4 {
            let v: u32 = (self[offset] as u32) + (self[offset + 1] as u32) * 0x100 + (self[offset + 2] as u32) * 0x10000 + (self[offset + 3] as u32) * 0x1000000;
            if v < 0x80000000 {
                Some(v as i32)
            } else {
                Some((v as i64 - 0x100000000) as i32)
            }
        } else {
            None
        }
    }

    fn read_i32_be(&self, offset: usize) -> (r: Result<i32, DecodeError>) {
        match self.get_i32_at_be(offset) {
            Some(v) => Ok(v),
            None => Err(DecodeError::ReadField),
        }
    }

    fn get_i32_at_be(&self, offset: usize) -> (r: Option<i32>) {
        if self.len() >= 4 && offset <= self.len() - 4 {
            let v: u32 = (self[offset + 3] as u32) + (self[offset + 2] as u32) * 0x100 + (self[offset + 1] as u32) * 0x10000 + (self[offset] as u32) * 0x1000000;
            if v < 0x80000000 {
                Some(v as i32)
            } else {
                Some((v as i64 - 0x100000000) as i32)
            }
        } else {
            None
        }
    }

    fn read_i64(&self, offset: usize) -> (r: Result<i64, DecodeError>) {
        match self.get_i64_at(offset) {
            Some(v) => Ok(v),
            None => Err(DecodeError::ReadField),
        }
    }

    fn get_i64_at(&self, offset: usize) -> (r: Option<i64>) {
        if self.len() >= 8 && offset <= self.len() - 8 {
            let v: u64 = (self[offset] as u64) + (self[offset + 1] as u64) * 0x100 + (self[offset + 2] as u64) * 0x10000 + (self[offset + 3] as u64) * 0x1000000 + (self[offset + 4] as u64) * 0x100000000 + (self[offset + 5] as u64) * 0x10000000000 + (self[offset + 6] as u64) * 0x1000000000000 + (self[offset + 7] as u64) * 0x100000000000000;
            if v < 0x8000000000000000 {
                Some(v as i64)
            } else {
                Some((v as i128 - 0x10000000000000000) as i64)
            }
        } else {
            None
        }
    }

    fn read_i64_be(&self, offset: usize) -> (r: Result<i64, DecodeError>) {
        match self.get_i64_at_be(offset) {
            Some(v) => Ok(v),
            None => Err(DecodeError::ReadField),
        }
    }

    fn get_i64_at_be(&self, offset: usize) -> (r: Option<i64>) {
        if self.len() >= 8 && offset <= self.len() - 8 {
            let v: u64 = (self[offset + 7] as u64) + (self[offset + 6] as u64) * 0x100 + (self[offset + 5] as u64) * 0x10000 + (self[offset + 4] as u64) * 0x1000000 + (self[offset + 3] as u64) * 0x100000000 + (self[offset + 2] as u64) * 0x10000000000 + (self[offset + 1] as u64) * 0x1000000000000 + (self[offset] as u64) * 0x100000000000000;
            if v < 0x8000000000000000 {
                Some(v as i64)
            } else {
                Some((v as i128 - 0x10000000000000000) as i64)
            }
        } else {
            None
        }
    }

    fn read_usize(&self, offset: usize) -> (r: Result<usize, DecodeError>) {
        match self.get_usize_at(offset) {
            Some(v) => Ok(v),
            None => Err(DecodeError::ReadField),
        }
    }

    fn get_usize_at(&self, offset: usize) -> (r: Option<usize>) {
        if word_size() == 8 {
            match self.get_u64_at(offset) {
                Some(v) => Some(v as usize),
                None => None,
            }
        } else {
            match self.get_u32_at(offset) {
                Some(v) => Some(v as usize),
                None => None,
            }
        }
    }

    fn read_usize_be(&self, offset: usize) -> (r: Result<usize, DecodeError>) {
        match self.get_usize_at_be(offset) {
            Some(v) => Ok(v),
            None => Err(DecodeError::ReadField),
        }
    }

    fn get_usize_at_be(&self, offset: usize) -> (r: Option<usize>) {
        if word_size() == 8 {
            match self.get_u64_at_be(offset) {
                Some(v) => Some(v as usize),
                None => None,
            }
        } else {
            match self.get_u32_at_be(offset) {
                Some(v) => Some(v as usize),
                None => None,
            }
        }
    }

    fn read_isize(&self, offset: usize) -> (r: Result<isize, DecodeError>) {
        match self.get_isize_at(offset) {
            Some(v) => Ok(v),
            None => Err(DecodeError::ReadField),
        }
    }

    fn get_isize_at(&self, offset: usize) -> (r: Option<isize>) {
        if word_size() == 8 {
            match self.get_i64_at(offset) {
                Some(v) => Some(v as isize),
                None => None,
            }
        } else {
            match self.get_i32_at(offset) {
                Some(v) => Some(v as isize),
                None => None,
            }
        }
    }

    fn read_isize_be(&self, offset: usize) -> (r: Result<isize, DecodeError>) {
        match self.get_isize_at_be(offset) {
            Some(v) => Ok(v),
            None => Err(DecodeError::ReadField),
        }
    }

    fn get_isize_at_be(&self, offset: usize) -> (r: Option<isize>) {
        if word_size() == 8 {
            match self.get_i64_at_be(offset) {
                Some(v) => Some(v as isize),
                None => None,
            }
        } else {
            match self.get_i32_at_be(offset) {
                Some(v) => Some(v as isize),
                None => None,
            }
        }
    }

    fn unswizzled_psp(&self, width_bytes: u32, height: u32) -> (r: Vec<u8>) {
        let mut pixels: Vec<u8> = Vec::new();
        let blocks_per_row: u128 = (width_bytes / 16) as u128;
        let mut y: u32 = 0;
        while y < height
            invariant
                y <= height,
                width_bytes * height <= usize::MAX,
                blocks_per_row == width_bytes / 16,
                pixels@.len() == y * width_bytes,
                forall|i: int|
                    0 <= i < pixels@.len() ==> pixels@[i] == unswizzled_byte(
                        self@,
                        width_bytes as int,
                        i,
                    ),
            decreases height - y,
        {
            let mut x: u32 = 0;
            while x < width_bytes
                invariant
                    y < height,
                    x <= width_bytes,
                    width_bytes * height <= usize::MAX,
                    blocks_per_row == width_bytes / 16,
                    pixels@.len() == y * width_bytes + x,
                    forall|i: int|
                        0 <= i < pixels@.len() ==> pixels@[i] == unswizzled_byte(
                            self@,
                            width_bytes as int,
                            i,
                        ),
                decreases width_bytes - x,
            {
                let block_row: u128 = (y / 8) as u128;
                assert(block_row * blocks_per_row <= 0x2000_0000 * 0x1000_0000) by (nonlinear_arith)
                    requires
                        0 <= block_row <= 0x2000_0000,
                        0 <= blocks_per_row <= 0x1000_0000,
                ;
                let index: u128 = (block_row * blocks_per_row + (x / 16) as u128) * 128 + (y
                    % 8) as u128 * 16 + (x % 16) as u128;
                let value: u8 = if index < self.len() as u128 {
                    self[index as usize]
                } else {
                    0
                };
                proof {
                    let i = y * width_bytes + x;
                    lemma_fundamental_div_mod_converse(i, width_bytes as int, y as int, x as int);
                    assert((y + 1) * width_bytes <= height * width_bytes) by (nonlinear_arith)
                        requires
                            y + 1 <= height,
                            width_bytes >= 0,
                    ;
                    assert(index == psp_source_index(width_bytes as int, x as int, y as int));
                    assert(value == unswizzled_byte(self@, width_bytes as int, i));
                }
                let ghost before = pixels@;
                pixels.push(value);
                assert(forall|k: int| 0 <= k < before.len() ==> pixels@[k] == before[k]);
                x += 1;
            }
            proof {
                assert(y * width_bytes + width_bytes == (y + 1) * width_bytes) by (nonlinear_arith);
            }
            y += 1;
        }
        proof {
            assert(height * width_bytes == width_bytes * height) by (nonlinear_arith);
            assert(pixels@ =~= unswizzled(self@, width_bytes as int, height as int));
        }
        pixels
    }
}

} // verus!
