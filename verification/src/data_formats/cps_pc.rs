use crate::byte_slice::{fits, le_u16, le_u32, ByteSlice};
use crate::data_formats::{bytes_outcome, copy_within, extend_from_within};
use crate::error::DecodeError;
use vstd::arithmetic::div_mod::{lemma_fundamental_div_mod, lemma_fundamental_div_mod_converse};
use vstd::prelude::*;

verus! {

/// Where the key word lies, given the last word of the packed data: that word less a
/// constant, modulo 2^32.
#[verifier::opaque]
pub open spec fn cps_pc_key_offset_of(last_word: u32) -> u32 {
    last_word.wrapping_sub(0x7534682)
}

/// The key for the first obfuscated word, given the key word: the sum of the key word,
/// its offset and a constant, modulo 2^32.
#[verifier::opaque]
pub open spec fn cps_pc_first_key_of(key_word: u32, key_offset: u32) -> u32 {
    key_word.wrapping_add(key_offset).wrapping_add(0x3786425)
}

/// The key for the word after the one that `key` belongs to, modulo 2^32.
#[verifier::opaque]
pub open spec fn cps_pc_next_key(key: u32) -> u32 {
    1103515245u32.wrapping_mul(key).wrapping_add(39686)
}

/// A stored word less the key and the packed size, modulo 2^32.
#[verifier::opaque]
pub open spec fn cps_pc_unmasked(stored: u32, key: u32, packed_size: u32) -> u32 {
    stored.wrapping_sub(key.wrapping_add(packed_size))
}

/// Where the key word lies: the last word of the packed data names it.
pub open spec fn cps_pc_key_offset(buf: Seq<u8>, packed_size: int) -> u32 {
    cps_pc_key_offset_of(le_u32(buf, packed_size - 4))
}

/// The key for the first obfuscated word.
pub open spec fn cps_pc_first_key(buf: Seq<u8>, key_offset: u32) -> u32 {
    cps_pc_first_key_of(le_u32(buf, key_offset as int), key_offset)
}

/// The plain word at `pos`. The key word itself is stored plain, and so is every word
/// where the key offset is zero.
pub open spec fn cps_pc_plain_word(
    buf: Seq<u8>,
    pos: int,
    key: u32,
    key_offset: u32,
    packed_size: u32,
) -> u32 {
    if pos != key_offset && key_offset != 0 {
        cps_pc_unmasked(le_u32(buf, pos), key, packed_size)
    } else {
        le_u32(buf, pos)
    }
}

/// The four bytes of a word, lowest first.
#[verifier::opaque]
pub open spec fn le_bytes_of(word: u32) -> Seq<u8> {
    seq![
        (word % 256) as u8,
        (word / 0x100 % 256) as u8,
        (word / 0x1_0000 % 256) as u8,
        (word / 0x100_0000) as u8,
    ]
}

fn key_offset_of(last_word: u32) -> (r: u32)
    ensures
        r == cps_pc_key_offset_of(last_word),
{
    reveal(cps_pc_key_offset_of);
    last_word.wrapping_sub(0x7534682)
}

fn first_key_of(key_word: u32, key_offset: u32) -> (r: u32)
    ensures
        r == cps_pc_first_key_of(key_word, key_offset),
{
    reveal(cps_pc_first_key_of);
    key_word.wrapping_add(key_offset).wrapping_add(0x3786425)
}

fn next_key(key: u32) -> (r: u32)
    ensures
        r == cps_pc_next_key(key),
{
    reveal(cps_pc_next_key);
    1103515245u32.wrapping_mul(key).wrapping_add(39686)
}

fn unmasked(stored: u32, key: u32, packed_size: u32) -> (r: u32)
    ensures
        r == cps_pc_unmasked(stored, key, packed_size),
{
    reveal(cps_pc_unmasked);
    stored.wrapping_sub(key.wrapping_add(packed_size))
}

fn push_le_bytes(out: &mut Vec<u8>, word: u32)
    ensures
        final(out)@ == old(out)@ + le_bytes_of(word),
{
    reveal(le_bytes_of);
    out.push((word % 256) as u8);
    out.push((word / 0x100 % 256) as u8);
    out.push((word / 0x1_0000 % 256) as u8);
    out.push((word / 0x100_0000) as u8);
    assert(out@ =~= old(out)@ + le_bytes_of(word));
}

/// Appends `n` copies of `value`.
fn push_run(out: &mut Vec<u8>, value: u8, n: usize)
    ensures
        final(out)@ == old(out)@ + cps_pc_run(value, n as int),
{
    let mut j: usize = 0;
    while j < n
        invariant
            j <= n,
            out@ == old(out)@ + Seq::new(j as nat, |i: int| value),
        decreases n - j,
    {
        out.push(value);
        j += 1;
        assert(out@ =~= old(out)@ + Seq::new(j as nat, |i: int| value));
    }
}

/// Appends `n` bytes read round and round from the `size` bytes of `d` at `block`.
fn push_cyclic(out: &mut Vec<u8>, d: &[u8], block: usize, size: usize, n: usize)
    requires
        0 < size,
        block + size <= d@.len(),
    ensures
        final(out)@ == old(out)@ + cps_pc_cycle(d@, block as int, size as int, n as int),
{
    let total: usize = d.len();
    let mut j: usize = 0;
    let mut m: usize = 0;
    while j < n
        invariant
            j <= n,
            0 < size,
            m < size,
            m == j % size,
            block + size <= d@.len() == total,
            out@ == old(out)@ + Seq::new(j as nat, |i: int| d@[block + i % (size as int)]),
        decreases n - j,
    {
        out.push(d[block + m]);
        proof {
            lemma_fundamental_div_mod(j as int, size as int);
            let q = j as int / size as int;
            assert((q + 1) * size == size * q + size) by (nonlinear_arith);
            assert(q * size == size * q) by (nonlinear_arith);
            if m + 1 == size {
                lemma_fundamental_div_mod_converse(j + 1, size as int, j as int / size as int + 1, 0);
            } else {
                lemma_fundamental_div_mod_converse(j + 1, size as int, j as int / size as int, m + 1);
            }
        }
        j += 1;
        m = if m + 1 == size {
            0
        } else {
            m + 1
        };
        assert(out@ =~= old(out)@ + Seq::new(j as nat, |i: int| d@[block + i % (size as int)]));
    }
}

/// `acc` followed by the plain words from `pos` up to the last word of the packed
/// data, in whose place a single zero byte stands.
pub open spec fn cps_pc_plain_words(
    buf: Seq<u8>,
    pos: int,
    key: u32,
    key_offset: u32,
    packed_size: u32,
    acc: Seq<u8>,
) -> Result<Seq<u8>, DecodeError>
    decreases
            (if pos < packed_size {
                packed_size - pos
            } else {
                0
            }),
{
    if pos >= packed_size {
        Ok(acc)
    } else if pos == packed_size - 4 {
        Ok(acc.push(0))
    } else if !fits(buf, pos, 4) {
        Err(DecodeError::ReadField)
    } else {
        cps_pc_plain_words(
            buf,
            pos + 4,
            cps_pc_next_key(key),
            key_offset,
            packed_size,
            acc + le_bytes_of(cps_pc_plain_word(buf, pos, key, key_offset, packed_size)),
        )
    }
}

/// The plain data of a file: bytes 4 to 16 as they are, then the plain words.
pub open spec fn cps_pc_deobfuscated(buf: Seq<u8>) -> Result<Seq<u8>, DecodeError> {
    let packed_size = le_u32(buf, 4);
    let key_offset = cps_pc_key_offset(buf, packed_size as int);
    if !fits(buf, 12, 4) || packed_size < 4 || !fits(buf, packed_size - 4, 4) || !fits(
        buf,
        key_offset as int,
        4,
    ) {
        Err(DecodeError::ReadField)
    } else {
        cps_pc_plain_words(
            buf,
            16,
            cps_pc_first_key(buf, key_offset),
            key_offset,
            packed_size,
            buf.subrange(4, 16),
        )
    }
}

/// What is returned once the tokens are used up or the output is full.
pub open spec fn cps_pc_finish(out: Seq<u8>, unpacked_size: int) -> Result<Seq<u8>, DecodeError> {
    if out.len() == unpacked_size {
        Ok(out)
    } else {
        Err(
            DecodeError::CpsPcUnpackedSize {
                expected: unpacked_size as usize,
                actual: out.len() as usize,
            },
        )
    }
}

/// `n` copies of `value`.
pub open spec fn cps_pc_run(value: u8, n: int) -> Seq<u8> {
    Seq::new(n as nat, |i: int| value)
}

/// `n` bytes read round and round from the `size` bytes of `d` at `block`.
pub open spec fn cps_pc_cycle(d: Seq<u8>, block: int, size: int, n: int) -> Seq<u8> {
    Seq::new(n as nat, |i: int| d[block + i % size])
}

/// The smaller of two numbers.
pub open spec fn least(a: int, b: int) -> int {
    if a <= b {
        a
    } else {
        b
    }
}

/// The outcome of reading the tokens of the plain data `d` from `pos` on.
///
/// The top two bits of a control byte select the token. `11`: a run of one value;
/// its count is the low five bits plus two, plus 32 times an extension byte where
/// bit 5 is set. `10`: a copy from the output; two bits and the next byte give the
/// distance less one, four bits the count less two. `01`: a block of literals,
/// of the low six bits plus two bytes, repeated as often as the next byte says,
/// plus one. `00`: a run of literals; its count is the low five bits plus one,
/// extended like that of a run. Runs, blocks and literals stop where the output is full;
/// blocks and literals are cut to what the input still holds.
pub open spec fn cps_pc_tokens(d: Seq<u8>, pos: int, out: Seq<u8>, unpacked_size: int) -> Result<
    Seq<u8>,
    DecodeError,
>
    decreases d.len() - pos,
{
    if pos < 0 || pos >= d.len() || out.len() >= unpacked_size {
        cps_pc_finish(out, unpacked_size)
    } else {
        let ctl = d[pos];
        let room = unpacked_size - out.len();
        let extended = (ctl / 32) % 2 == 1;
        let after = if extended {
            pos + 2
        } else {
            pos + 1
        };
        let extension = if extended {
            d[pos + 1] * 32
        } else {
            0
        };
        if ctl >= 0xC0 {
            let n = least(ctl % 32 + 2 + extension, room);
            if after >= d.len() {
                Err(DecodeError::CpsPcTruncated)
            } else {
                cps_pc_tokens(
                    d,
                    after + 1,
                    out + cps_pc_run(d[after], n),
                    unpacked_size,
                )
            }
        } else if ctl >= 0x80 {
            let offset = (ctl % 4) * 256 + d[pos + 1] + 1;
            let count = (ctl / 4) % 16 + 2;
            if pos + 1 >= d.len() {
                Err(DecodeError::CpsPcTruncated)
            } else if offset > out.len() {
                Err(DecodeError::CpsPcBackrefOffset)
            } else {
                cps_pc_tokens(
                    d,
                    pos + 2,
                    extend_from_within(out, out.len() - offset, count as nat),
                    unpacked_size,
                )
            }
        } else if ctl >= 0x40 {
            let size = least(least(ctl % 64 + 2, d.len() - (pos + 1)), room);
            let n = least((d[pos + 1] + 1) * size, room);
            if pos + 1 >= d.len() || pos + 2 + size > d.len() {
                Err(DecodeError::CpsPcTruncated)
            } else {
                cps_pc_tokens(
                    d,
                    pos + 2 + size,
                    out + cps_pc_cycle(d, pos + 2, size, n),
                    unpacked_size,
                )
            }
        } else {
            let n = least(least(ctl % 32 + 1 + extension, d.len() - after), room);
            if extended && pos + 1 >= d.len() {
                Err(DecodeError::CpsPcTruncated)
            } else {
                cps_pc_tokens(d, after + n, out + d.subrange(after, after + n), unpacked_size)
            }
        }
    }
}

/// What a file decodes to. Bit 0 of the compression type asks for the tokens, read
/// from offset 16 of the plain data; bit 1 alone is not supported; with neither the
/// plain data is the result, provided it is no shorter than the announced size.
pub open spec fn cps_pc_decoded(buf: Seq<u8>) -> Result<Seq<u8>, DecodeError> {
    let compression_type = le_u16(buf, 10);
    let unpacked_size = le_u32(buf, 12);
    match cps_pc_deobfuscated(buf) {
        Err(e) => Err(e),
        Ok(d) => if compression_type % 2 == 1 {
            cps_pc_tokens(d, 16, Seq::empty(), unpacked_size as int)
        } else if (compression_type / 2) % 2 == 1 {
            Err(DecodeError::CpsPcUnsupported)
        } else if d.len() >= unpacked_size {
            Ok(d)
        } else {
            Err(
                DecodeError::CpsPcPlainSize {
                    expected: unpacked_size as usize,
                    actual: d.len() as usize,
                },
            )
        },
    }
}

/// Removes the obfuscation from a file.
pub fn deobfuscate(buf: &[u8]) -> (r: Result<Vec<u8>, DecodeError>)
    ensures
        bytes_outcome(r) == cps_pc_deobfuscated(buf@),
{
    if buf.len() < 16 {
        return Err(DecodeError::ReadField);
    }
    let packed: u32 = buf.read_u32(4)?;
    if packed < 4 {
        return Err(DecodeError::ReadField);
    }
    let packed_size: usize = packed as usize;
    let key_off: u32 = key_offset_of(buf.read_u32(packed_size - 4)?);
    let mut key: u32 = first_key_of(buf.read_u32(key_off as usize)?, key_off);
    let mut plain: Vec<u8> = Vec::new();
    plain.extend_from_slice(&buf[4..16]);
    assert(plain@ == buf@.subrange(4, 16));
    let mut pos: usize = 16;
    while pos < packed_size
        invariant
            16 <= pos,
            packed_size == packed,
            buf@.len() <= usize::MAX,
            cps_pc_plain_words(buf@, pos as int, key, key_off, packed, plain@)
                == cps_pc_deobfuscated(buf@),
        decreases
                (if pos < packed_size {
                    packed_size - pos
                } else {
                    0
                }),
    {
        if pos == packed_size - 4 {
            plain.push(0);
            return Ok(plain);
        }
        let stored: u32 = buf.read_u32(pos)?;
        let word: u32 = if pos != key_off as usize && key_off != 0 {
            unmasked(stored, key, packed)
        } else {
            stored
        };
        push_le_bytes(&mut plain, word);
        key = next_key(key);
        pos += 4;
    }
    Ok(plain)
}

/// Reads the run token at `pos` and returns where the next token starts.
fn run_token(d: &[u8], pos: usize, out: &mut Vec<u8>, unpacked_size: usize) -> (r: Result<
    usize,
    DecodeError,
>)
    requires
        pos < d@.len(),
        old(out)@.len() < unpacked_size,
        d@[pos as int] >= 0xC0,
    ensures
        match r {
            Ok(next) => pos < next && cps_pc_tokens(
                d@,
                pos as int,
                old(out)@,
                unpacked_size as int,
            ) == cps_pc_tokens(d@, next as int, final(out)@, unpacked_size as int),
            Err(e) => cps_pc_tokens(d@, pos as int, old(out)@, unpacked_size as int) == Err::<
                Seq<u8>,
                DecodeError,
            >(e),
        },
{
    let ctl: usize = d[pos] as usize;
    let room: usize = unpacked_size - out.len();
    let extended: bool = (ctl / 32) % 2 == 1;
    if d.len() - pos < 2 {
        return Err(DecodeError::CpsPcTruncated);
    }
    let after: usize = if extended {
        pos + 2
    } else {
        pos + 1
    };
    if after >= d.len() {
        return Err(DecodeError::CpsPcTruncated);
    }
    let extension: usize = if extended {
        d[pos + 1] as usize * 32
    } else {
        0
    };
    let count: usize = ctl % 32 + 2 + extension;
    let n: usize = if count < room {
        count
    } else {
        room
    };
    push_run(out, d[after], n);
    Ok(after + 1)
}

/// Reads the copy token at `pos` and returns where the next token starts.
fn copy_token(d: &[u8], pos: usize, out: &mut Vec<u8>, unpacked_size: usize) -> (r: Result<
    usize,
    DecodeError,
>)
    requires
        pos < d@.len(),
        old(out)@.len() < unpacked_size,
        0x80 <= d@[pos as int] < 0xC0,
    ensures
        match r {
            Ok(next) => pos < next && cps_pc_tokens(
                d@,
                pos as int,
                old(out)@,
                unpacked_size as int,
            ) == cps_pc_tokens(d@, next as int, final(out)@, unpacked_size as int),
            Err(e) => cps_pc_tokens(d@, pos as int, old(out)@, unpacked_size as int) == Err::<
                Seq<u8>,
                DecodeError,
            >(e),
        },
{
    let ctl: usize = d[pos] as usize;
    if d.len() - pos < 2 {
        return Err(DecodeError::CpsPcTruncated);
    }
    let offset: usize = (ctl % 4) * 256 + d[pos + 1] as usize + 1;
    let count: usize = (ctl / 4) % 16 + 2;
    if offset > out.len() {
        return Err(DecodeError::CpsPcBackrefOffset);
    }
    let origin: usize = out.len() - offset;
    copy_within(out, origin, count);
    Ok(pos + 2)
}

/// Reads the block token at `pos` and returns where the next token starts.
fn block_token(d: &[u8], pos: usize, out: &mut Vec<u8>, unpacked_size: usize) -> (r: Result<
    usize,
    DecodeError,
>)
    requires
        pos < d@.len(),
        old(out)@.len() < unpacked_size,
        0x40 <= d@[pos as int] < 0x80,
    ensures
        match r {
            Ok(next) => pos < next && cps_pc_tokens(
                d@,
                pos as int,
                old(out)@,
                unpacked_size as int,
            ) == cps_pc_tokens(d@, next as int, final(out)@, unpacked_size as int),
            Err(e) => cps_pc_tokens(d@, pos as int, old(out)@, unpacked_size as int) == Err::<
                Seq<u8>,
                DecodeError,
            >(e),
        },
{
    let ctl: usize = d[pos] as usize;
    let room: usize = unpacked_size - out.len();
    if d.len() - pos < 2 {
        return Err(DecodeError::CpsPcTruncated);
    }
    let left: usize = d.len() - (pos + 1);
    let mut size: usize = ctl % 64 + 2;
    if size > left {
        size = left;
    }
    if size > room {
        size = room;
    }
    if size > left - 1 {
        return Err(DecodeError::CpsPcTruncated);
    }
    let repetitions: usize = d[pos + 1] as usize + 1;
    assert(repetitions * size <= 256 * 65) by (nonlinear_arith)
        requires
            0 <= repetitions <= 256,
            0 <= size <= 65,
    ;
    let n: usize = if repetitions * size < room {
        repetitions * size
    } else {
        room
    };
    push_cyclic(out, d, pos + 2, size, n);
    Ok(pos + 2 + size)
}

/// Reads the literal token at `pos` and returns where the next token starts.
fn literal_token(d: &[u8], pos: usize, out: &mut Vec<u8>, unpacked_size: usize) -> (r: Result<
    usize,
    DecodeError,
>)
    requires
        pos < d@.len(),
        old(out)@.len() < unpacked_size,
        d@[pos as int] < 0x40,
    ensures
        match r {
            Ok(next) => pos < next && cps_pc_tokens(
                d@,
                pos as int,
                old(out)@,
                unpacked_size as int,
            ) == cps_pc_tokens(d@, next as int, final(out)@, unpacked_size as int),
            Err(e) => cps_pc_tokens(d@, pos as int, old(out)@, unpacked_size as int) == Err::<
                Seq<u8>,
                DecodeError,
            >(e),
        },
{
    let ctl: usize = d[pos] as usize;
    let room: usize = unpacked_size - out.len();
    let extended: bool = (ctl / 32) % 2 == 1;
    if extended && d.len() - pos < 2 {
        return Err(DecodeError::CpsPcTruncated);
    }
    let after: usize = if extended {
        pos + 2
    } else {
        pos + 1
    };
    let extension: usize = if extended {
        d[pos + 1] as usize * 32
    } else {
        0
    };
    let mut n: usize = ctl % 32 + 1 + extension;
    if n > d.len() - after {
        n = d.len() - after;
    }
    if n > room {
        n = room;
    }
    out.extend_from_slice(&d[after..after + n]);
    assert(out@ == old(out)@ + d@.subrange(after as int, after + n));
    Ok(after + n)
}

/// Reads the tokens of plain data, from offset 16 on.
pub fn unpack(d: &[u8], unpacked_size: usize) -> (r: Result<Vec<u8>, DecodeError>)
    ensures
        bytes_outcome(r) == cps_pc_tokens(d@, 16, Seq::empty(), unpacked_size as int),
{
    let mut out: Vec<u8> = Vec::new();
    let mut pos: usize = 16;
    while pos < d.len() && out.len() < unpacked_size
        invariant
            16 <= pos,
            cps_pc_tokens(d@, pos as int, out@, unpacked_size as int) == cps_pc_tokens(
                d@,
                16,
                Seq::empty(),
                unpacked_size as int,
            ),
        decreases
                (if pos < d.len() {
                    d.len() - pos
                } else {
                    0
                }),
    {
        let ctl: u8 = d[pos];
        pos = if ctl >= 0xC0 {
            run_token(d, pos, &mut out, unpacked_size)?
        } else if ctl >= 0x80 {
            copy_token(d, pos, &mut out, unpacked_size)?
        } else if ctl >= 0x40 {
            block_token(d, pos, &mut out, unpacked_size)?
        } else {
            literal_token(d, pos, &mut out, unpacked_size)?
        };
    }
    if out.len() == unpacked_size {
        Ok(out)
    } else {
        Err(DecodeError::CpsPcUnpackedSize { expected: unpacked_size, actual: out.len() })
    }
}

/// Decodes a file: removes the obfuscation, then reads the tokens where the header asks for it.
pub fn decode(buf: &[u8]) -> (r: Result<Vec<u8>, DecodeError>)
    ensures
        bytes_outcome(r) == cps_pc_decoded(buf@),
{
    let plain = deobfuscate(buf)?;
    let compression_type: u16 = buf.read_u16(10)?;
    let unpacked_size: usize = buf.read_u32(12)? as usize;
    if compression_type % 2 == 1 {
        unpack(plain.as_slice(), unpacked_size)
    } else if (compression_type / 2) % 2 == 1 {
        Err(DecodeError::CpsPcUnsupported)
    } else if plain.len() >= unpacked_size {
        Ok(plain)
    } else {
        Err(DecodeError::CpsPcPlainSize { expected: unpacked_size, actual: plain.len() })
    }
}

} // verus!
