use crate::byte_slice::{
    be_i16,
    be_i32,
    be_i64,
    be_i8,
    be_isize,
    be_u16,
    be_u32,
    be_u64,
    be_usize,
    le_i16,
    le_i32,
    le_i64,
    le_i8,
    le_isize,
    le_u16,
    le_u32,
    le_u64,
    le_usize,
    word_len,
    word_size,
    ByteSlice,
};
use vstd::prelude::*;

verus! {

/// A run of bytes that is taken from the front, in single bytes or in integers.
pub trait ByteIter {
    /// The bytes that are left.
    spec fn rest(&self) -> Seq<u8>;

    /// The number of bytes that are left.
    fn len(&self) -> (r: usize)
        ensures
            r == self.rest().len(),
    ;

    /// Takes one byte.
    fn next(&mut self) -> (r: Option<u8>)
        ensures
            old(self).rest().len() >= 1 ==> r == Some(old(self).rest()[0]) && final(self).rest()
                == old(self).rest().skip(1),
            old(self).rest().len() < 1 ==> r is None && final(self).rest() == old(self).rest(),
    ;

    /// Takes `len` bytes; takes nothing where fewer are left.
    fn next_bytes(&mut self, len: usize) -> (r: Option<Vec<u8>>)
        ensures
            old(self).rest().len() >= len ==> (r matches Some(v) && v@ == old(self).rest().take(
                len as int,
            )) && final(self).rest() == old(self).rest().skip(len as int),
            old(self).rest().len() < len ==> r is None && final(self).rest() == old(self).rest(),
    ;

    /// Takes an unsigned 16-bit integer, little-endian; takes nothing where fewer bytes are left.
    fn next_u16(&mut self) -> (r: Option<u16>)
        ensures
            old(self).rest().len() >= 2 ==> r == Some(le_u16(old(self).rest(), 0)) && final(self).rest() == old(self).rest().skip(2),
            old(self).rest().len() < 2 ==> r is None && final(self).rest() == old(self).rest(),
    ;

    /// Takes an unsigned 16-bit integer, big-endian; takes nothing where fewer bytes are left.
    fn next_u16_be(&mut self) -> (r: Option<u16>)
        ensures
            old(self).rest().len() >= 2 ==> r == Some(be_u16(old(self).rest(), 0)) && final(self).rest() == old(self).rest().skip(2),
            old(self).rest().len() < 2 ==> r is None && final(self).rest() == old(self).rest(),
    ;

    /// Takes an unsigned 32-bit integer, little-endian; takes nothing where fewer bytes are left.
    fn next_u32(&mut self) -> (r: Option<u32>)
        ensures
            old(self).rest().len() >= 4 ==> r == Some(le_u32(old(self).rest(), 0)) && final(self).rest() == old(self).rest().skip(4),
            old(self).rest().len() < 4 ==> r is None && final(self).rest() == old(self).rest(),
    ;

    /// Takes an unsigned 32-bit integer, big-endian; takes nothing where fewer bytes are left.
    fn next_u32_be(&mut self) -> (r: Option<u32>)
        ensures
            old(self).rest().len() >= 4 ==> r == Some(be_u32(old(self).rest(), 0)) && final(self).rest() == old(self).rest().skip(4),
            old(self).rest().len() < 4 ==> r is None && final(self).rest() == old(self).rest(),
    ;

    /// Takes an unsigned 64-bit integer, little-endian; takes nothing where fewer bytes are left.
    fn next_u64(&mut self) -> (r: Option<u64>)
        ensures
            old(self).rest().len() >= 8 ==> r == Some(le_u64(old(self).rest(), 0)) && final(self).rest() == old(self).rest().skip(8),
            old(self).rest().len() < 8 ==> r is None && final(self).rest() == old(self).rest(),
    ;

    /// Takes an unsigned 64-bit integer, big-endian; takes nothing where fewer bytes are left.
    fn next_u64_be(&mut self) -> (r: Option<u64>)
        ensures
            old(self).rest().len() >= 8 ==> r == Some(be_u64(old(self).rest(), 0)) && final(self).rest() == old(self).rest().skip(8),
            old(self).rest().len() < 8 ==> r is None && final(self).rest() == old(self).rest(),
    ;

    /// Takes a signed 8-bit integer, little-endian; takes nothing where fewer bytes are left.
    fn next_i8(&mut self) -> (r: Option<i8>)
        ensures
            old(self).rest().len() >= 1 ==> r == Some(le_i8(old(self).rest(), 0)) && final(self).rest() == old(self).rest().skip(1),
            old(self).rest().len() < 1 ==> r is None && final(self).rest() == old(self).rest(),
    ;

    /// Takes a signed 8-bit integer, big-endian; takes nothing where fewer bytes are left.
    fn next_i8_be(&mut self) -> (r: Option<i8>)
        ensures
            old(self).rest().len() >= 1 ==> r == Some(be_i8(old(self).rest(), 0)) && final(self).rest() == old(self).rest().skip(1),
            old(self).rest().len() < 1 ==> r is None && final(self).rest() == old(self).rest(),
    ;

    /// Takes a signed 16-bit integer, little-endian; takes nothing where fewer bytes are left.
    fn next_i16(&mut self) -> (r: Option<i16>)
        ensures
            old(self).rest().len() >= 2 ==> r == Some(le_i16(old(self).rest(), 0)) && final(self).rest() == old(self).rest().skip(2),
            old(self).rest().len() < 2 ==> r is None && final(self).rest() == old(self).rest(),
    ;

    /// Takes a signed 16-bit integer, big-endian; takes nothing where fewer bytes are left.
    fn next_i16_be(&mut self) -> (r: Option<i16>)
        ensures
            old(self).rest().len() >= 2 ==> r == Some(be_i16(old(self).rest(), 0)) && final(self).rest() == old(self).rest().skip(2),
            old(self).rest().len() < 2 ==> r is None && final(self).rest() == old(self).rest(),
    ;

    /// Takes a signed 32-bit integer, little-endian; takes nothing where fewer bytes are left.
    fn next_i32(&mut self) -> (r: Option<i32>)
        ensures
            old(self).rest().len() >= 4 ==> r == Some(le_i32(old(self).rest(), 0)) && final(self).rest() == old(self).rest().skip(4),
            old(self).rest().len() < 4 ==> r is None && final(self).rest() == old(self).rest(),
    ;

    /// Takes a signed 32-bit integer, big-endian; takes nothing where fewer bytes are left.
    fn next_i32_be(&mut self) -> (r: Option<i32>)
        ensures
            old(self).rest().len() >= 4 ==> r == Some(be_i32(old(self).rest(), 0)) && final(self).rest() == old(self).rest().skip(4),
            old(self).rest().len() < 4 ==> r is None && final(self).rest() == old(self).rest(),
    ;

    /// Takes a signed 64-bit integer, little-endian; takes nothing where fewer bytes are left.
    fn next_i64(&mut self) -> (r: Option<i64>)
        ensures
            old(self).rest().len() >= 8 ==> r == Some(le_i64(old(self).rest(), 0)) && final(self).rest() == old(self).rest().skip(8),
            old(self).rest().len() < 8 ==> r is None && final(self).rest() == old(self).rest(),
    ;

    /// Takes a signed 64-bit integer, big-endian; takes nothing where fewer bytes are left.
    fn next_i64_be(&mut self) -> (r: Option<i64>)
        ensures
            old(self).rest().len() >= 8 ==> r == Some(be_i64(old(self).rest(), 0)) && final(self).rest() == old(self).rest().skip(8),
            old(self).rest().len() < 8 ==> r is None && final(self).rest() == old(self).rest(),
    ;

    /// Takes an unsigned integer as wide as the machine's addresses, little-endian; takes nothing where fewer bytes are left.
    fn next_usize(&mut self) -> (r: Option<usize>)
        ensures
            old(self).rest().len() >= word_len() ==> r == Some(le_usize(old(self).rest(), 0)) && final(self).rest() == old(self).rest().skip(word_len()),
            old(self).rest().len() < word_len() ==> r is None && final(self).rest() == old(self).rest(),
    ;

    /// Takes an unsigned integer as wide as the machine's addresses, big-endian; takes nothing where fewer bytes are left.
    fn next_usize_be(&mut self) -> (r: Option<usize>)
        ensures
            old(self).rest().len() >= word_len() ==> r == Some(be_usize(old(self).rest(), 0)) && final(self).rest() == old(self).rest().skip(word_len()),
            old(self).rest().len() < word_len() ==> r is None && final(self).rest() == old(self).rest(),
    ;

    /// Takes a signed integer as wide as the machine's addresses, little-endian; takes nothing where fewer bytes are left.
    fn next_isize(&mut self) -> (r: Option<isize>)
        ensures
            old(self).rest().len() >= word_len() ==> r == Some(le_isize(old(self).rest(), 0)) && final(self).rest() == old(self).rest().skip(word_len()),
            old(self).rest().len() < word_len() ==> r is None && final(self).rest() == old(self).rest(),
    ;

    /// Takes a signed integer as wide as the machine's addresses, big-endian; takes nothing where fewer bytes are left.
    fn next_isize_be(&mut self) -> (r: Option<isize>)
        ensures
            old(self).rest().len() >= word_len() ==> r == Some(be_isize(old(self).rest(), 0)) && final(self).rest() == old(self).rest().skip(word_len()),
            old(self).rest().len() < word_len() ==> r is None && final(self).rest() == old(self).rest(),
    ;

}

/// The bytes of a slice from a position on.
pub struct SliceBytes<'a> {
    buf: &'a [u8],
    pos: usize,
}

/// What stands at the front of the rest of a run of bytes stands at its place in the run.
proof fn lemma_read_rest(buf: Seq<u8>, pos: int, n: int)
    requires
        0 <= pos,
        0 <= n,
        pos + n <= buf.len(),
    ensures
        forall|k: int| 0 <= k < n ==> buf.skip(pos)[k] == buf[pos + k],
        buf.skip(pos).skip(n) == buf.skip(pos + n),
{
    assert(buf.skip(pos).skip(n) =~= buf.skip(pos + n));
}

impl<'a> SliceBytes<'a> {
    /// Whether the position lies within the slice.
    #[verifier::type_invariant]
    spec fn inv(self) -> bool {
        self.pos <= self.buf@.len()
    }

    /// All the bytes of a slice.
    pub fn new(buf: &'a [u8]) -> (r: SliceBytes<'a>)
        ensures
            r.rest() == buf@,
    {
        assert(buf@.skip(0) =~= buf@);
        SliceBytes { buf, pos: 0 }
    }
}

impl<'a> ByteIter for SliceBytes<'a> {
    closed spec fn rest(&self) -> Seq<u8> {
        self.buf@.skip(self.pos as int)
    }

    fn len(&self) -> (r: usize) {
        proof {
            use_type_invariant(self);
        }
        self.buf.len() - self.pos
    }

    fn next(&mut self) -> (r: Option<u8>) {
        proof {
            use_type_invariant(&*self);
        }
        if self.pos >= self.buf.len() {
            return None;
        }
        let b: u8 = self.buf[self.pos];
        proof {
            lemma_read_rest(self.buf@, self.pos as int, 1);
        }
        self.pos = self.pos + 1;
        Some(b)
    }

    fn next_bytes(&mut self, len: usize) -> (r: Option<Vec<u8>>) {
        proof {
            use_type_invariant(&*self);
        }
        if self.buf.len() - self.pos < len {
            return None;
        }
        let mut v: Vec<u8> = Vec::new();
        v.extend_from_slice(&self.buf[self.pos..self.pos + len]);
        proof {
            lemma_read_rest(self.buf@, self.pos as int, len as int);
            assert(v@ =~= self.buf@.skip(self.pos as int).take(len as int));
        }
        self.pos = self.pos + len;
        Some(v)
    }

    fn next_u16(&mut self) -> (r: Option<u16>) {
        proof {
            use_type_invariant(&*self);
        }
        if self.buf.len() - self.pos < 2 {
            return None;
        }
        let v: Option<u16> = self.buf.get_u16_at(self.pos);
        proof {
            lemma_read_rest(self.buf@, self.pos as int, 2);
        }
        self.pos = self.pos + 2;
        v
    }

    fn next_u16_be(&mut self) -> (r: Option<u16>) {
        proof {
            use_type_invariant(&*self);
        }
        if self.buf.len() - self.pos < 2 {
            return None;
        }
        let v: Option<u16> = self.buf.get_u16_at_be(self.pos);
        proof {
            lemma_read_rest(self.buf@, self.pos as int, 2);
        }
        self.pos = self.pos + 2;
        v
    }

    fn next_u32(&mut self) -> (r: Option<u32>) {
        proof {
            use_type_invariant(&*self);
        }
        if self.buf.len() - self.pos < 4 {
            return None;
        }
        let v: Option<u32> = self.buf.get_u32_at(self.pos);
        proof {
            lemma_read_rest(self.buf@, self.pos as int, 4);
        }
        self.pos = self.pos + 4;
        v
    }

    fn next_u32_be(&mut self) -> (r: Option<u32>) {
        proof {
            use_type_invariant(&*self);
        }
        if self.buf.len() - self.pos < 4 {
            return None;
        }
        let v: Option<u32> = self.buf.get_u32_at_be(self.pos);
        proof {
            lemma_read_rest(self.buf@, self.pos as int, 4);
        }
        self.pos = self.pos + 4;
        v
    }

    fn next_u64(&mut self) -> (r: Option<u64>) {
        proof {
            use_type_invariant(&*self);
        }
        if self.buf.len() - self.pos < 8 {
            return None;
        }
        let v: Option<u64> = self.buf.get_u64_at(self.pos);
        proof {
            lemma_read_rest(self.buf@, self.pos as int, 8);
        }
        self.pos = self.pos + 8;
        v
    }

    fn next_u64_be(&mut self) -> (r: Option<u64>) {
        proof {
            use_type_invariant(&*self);
        }
        if self.buf.len() - self.pos < 8 {
            return None;
        }
        let v: Option<u64> = self.buf.get_u64_at_be(self.pos);
        proof {
            lemma_read_rest(self.buf@, self.pos as int, 8);
        }
        self.pos = self.pos + 8;
        v
    }

    fn next_i8(&mut self) -> (r: Option<i8>) {
        proof {
            use_type_invariant(&*self);
        }
        if self.buf.len() - self.pos < 1 {
            return None;
        }
        let v: Option<i8> = self.buf.get_i8_at(self.pos);
        proof {
            lemma_read_rest(self.buf@, self.pos as int, 1);
        }
        self.pos = self.pos + 1;
        v
    }

    fn next_i8_be(&mut self) -> (r: Option<i8>) {
        proof {
            use_type_invariant(&*self);
        }
        if self.buf.len() - self.pos < 1 {
            return None;
        }
        let v: Option<i8> = self.buf.get_i8_at_be(self.pos);
        proof {
            lemma_read_rest(self.buf@, self.pos as int, 1);
        }
        self.pos = self.pos + 1;
        v
    }

    fn next_i16(&mut self) -> (r: Option<i16>) {
        proof {
            use_type_invariant(&*self);
        }
        if self.buf.len() - self.pos < 2 {
            return None;
        }
        let v: Option<i16> = self.buf.get_i16_at(self.pos);
        proof {
            lemma_read_rest(self.buf@, self.pos as int, 2);
        }
        self.pos = self.pos + 2;
        v
    }

    fn next_i16_be(&mut self) -> (r: Option<i16>) {
        proof {
            use_type_invariant(&*self);
        }
        if self.buf.len() - self.pos < 2 {
            return None;
        }
        let v: Option<i16> = self.buf.get_i16_at_be(self.pos);
        proof {
            lemma_read_rest(self.buf@, self.pos as int, 2);
        }
        self.pos = self.pos + 2;
        v
    }

    fn next_i32(&mut self) -> (r: Option<i32>) {
        proof {
            use_type_invariant(&*self);
        }
        if self.buf.len() - self.pos < 4 {
            return None;
        }
        let v: Option<i32> = self.buf.get_i32_at(self.pos);
        proof {
            lemma_read_rest(self.buf@, self.pos as int, 4);
        }
        self.pos = self.pos + 4;
        v
    }

    fn next_i32_be(&mut self) -> (r: Option<i32>) {
        proof {
            use_type_invariant(&*self);
        }
        if self.buf.len() - self.pos < 4 {
            return None;
        }
        let v: Option<i32> = self.buf.get_i32_at_be(self.pos);
        proof {
            lemma_read_rest(self.buf@, self.pos as int, 4);
        }
        self.pos = self.pos + 4;
        v
    }

    fn next_i64(&mut self) -> (r: Option<i64>) {
        proof {
            use_type_invariant(&*self);
        }
        if self.buf.len() - self.pos < 8 {
            return None;
        }
        let v: Option<i64> = self.buf.get_i64_at(self.pos);
        proof {
            lemma_read_rest(self.buf@, self.pos as int, 8);
        }
        self.pos = self.pos + 8;
        v
    }

    fn next_i64_be(&mut self) -> (r: Option<i64>) {
        proof {
            use_type_invariant(&*self);
        }
        if self.buf.len() - self.pos < 8 {
            return None;
        }
        let v: Option<i64> = self.buf.get_i64_at_be(self.pos);
        proof {
            lemma_read_rest(self.buf@, self.pos as int, 8);
        }
        self.pos = self.pos + 8;
        v
    }

    fn next_usize(&mut self) -> (r: Option<usize>) {
        proof {
            use_type_invariant(&*self);
        }
        let n: usize = word_size();
        if self.buf.len() - self.pos < n {
            return None;
        }
        let v: Option<usize> = self.buf.get_usize_at(self.pos);
        proof {
            lemma_read_rest(self.buf@, self.pos as int, n as int);
        }
        self.pos = self.pos + n;
        v
    }

    fn next_usize_be(&mut self) -> (r: Option<usize>) {
        proof {
            use_type_invariant(&*self);
        }
        let n: usize = word_size();
        if self.buf.len() - self.pos < n {
            return None;
        }
        let v: Option<usize> = self.buf.get_usize_at_be(self.pos);
        proof {
            lemma_read_rest(self.buf@, self.pos as int, n as int);
        }
        self.pos = self.pos + n;
        v
    }

    fn next_isize(&mut self) -> (r: Option<isize>) {
        proof {
            use_type_invariant(&*self);
        }
        let n: usize = word_size();
        if self.buf.len() - self.pos < n {
            return None;
        }
        let v: Option<isize> = self.buf.get_isize_at(self.pos);
        proof {
            lemma_read_rest(self.buf@, self.pos as int, n as int);
        }
        self.pos = self.pos + n;
        v
    }

    fn next_isize_be(&mut self) -> (r: Option<isize>) {
        proof {
            use_type_invariant(&*self);
        }
        let n: usize = word_size();
        if self.buf.len() - self.pos < n {
            return None;
        }
        let v: Option<isize> = self.buf.get_isize_at_be(self.pos);
        proof {
            lemma_read_rest(self.buf@, self.pos as int, n as int);
        }
        self.pos = self.pos + n;
        v
    }

}

} // verus!
