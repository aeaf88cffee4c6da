use crate::byte_slice::{be_u16, be_u32, fits, ByteSlice};
use crate::data_formats::bytes_outcome;
use crate::data_formats::lzss::lzss_outcome;
use crate::error::DecodeError;
use vstd::prelude::*;

verus! {

/// The distance back that a reference token names: its upper eleven bits, plus one.
pub open spec fn lzss_be_ref_offset(token: u16) -> int {
    token / 32 + 1
}

/// The number of bytes that a reference token copies: its lower five bits, plus three.
pub open spec fn lzss_be_ref_len(token: u16) -> int {
    token % 32 + 3
}

/// `out` followed by the bytes number `t` to `count` of a reference that starts at
/// `start` in the output. A position before `chunk_start` reads the byte at
/// `chunk_start` instead; `None` where a position has no byte yet.
pub open spec fn lzss_be_copy(out: Seq<u8>, start: int, t: int, count: int, chunk_start: int) -> Option<
    Seq<u8>,
>
    decreases count - t,
{
    let index = if start + t < chunk_start {
        chunk_start
    } else {
        start + t
    };
    if t >= count {
        Some(out)
    } else if index < 0 || index >= out.len() {
        None
    } else {
        lzss_be_copy(out.push(out[index]), start, t + 1, count, chunk_start)
    }
}

/// What is returned once the output is full or the input has no further chunk.
pub open spec fn lzss_be_finish(out: Seq<u8>, expected_size: int) -> Result<Seq<u8>, Option<usize>> {
    if out.len() == expected_size {
        Ok(out)
    } else {
        Err(Some(out.len() as usize))
    }
}

/// The outcome of reading `inp` from `pos` on, inside a chunk that ends at
/// `chunk_end` and whose output began at `chunk_start`.
///
/// A chunk is a 16-bit big-endian length and that many bytes, cut short where the
/// input ends. Within it a flag byte governs up to eight tokens, lowest bit first:
/// a clear bit stands for a literal byte, a set bit for a 16-bit big-endian reference
/// token. `k` counts the tokens already read under `flags`; 8 stands for none pending.
/// A literal met when the output is full, or when the chunk has run out, drops the
/// rest of its flag byte; a reference for which the chunk has fewer than two bytes
/// left is passed over.
pub open spec fn lzss_be_tokens(
    inp: Seq<u8>,
    pos: int,
    chunk_end: int,
    chunk_start: int,
    flags: u8,
    k: int,
    out: Seq<u8>,
    expected_size: int,
) -> Result<Seq<u8>, Option<usize>>
    decreases inp.len() - pos, 8 - k,
{
    if pos < 0 || pos > inp.len() || chunk_end > inp.len() {
        Err(None)
    } else if k < 0 || k >= 8 {
        if pos < chunk_end {
            lzss_be_tokens(inp, pos + 1, chunk_end, chunk_start, inp[pos], 0, out, expected_size)
        } else if out.len() >= expected_size {
            lzss_be_finish(out, expected_size)
        } else if pos + 2 > inp.len() {
            Err(Some(out.len() as usize))
        } else {
            let end = if pos + 2 + be_u16(inp, pos) > inp.len() {
                inp.len() as int
            } else {
                pos + 2 + be_u16(inp, pos)
            };
            lzss_be_tokens(inp, pos + 2, end, out.len() as int, flags, 8, out, expected_size)
        }
    } else if flags & (1u8 << k) == 0 {
        if pos >= chunk_end {
            lzss_be_tokens(inp, pos, chunk_end, chunk_start, flags, 8, out, expected_size)
        } else if out.len() >= expected_size {
            lzss_be_tokens(inp, pos + 1, chunk_end, chunk_start, flags, 8, out, expected_size)
        } else {
            lzss_be_tokens(
                inp,
                pos + 1,
                chunk_end,
                chunk_start,
                flags,
                k + 1,
                out.push(inp[pos]),
                expected_size,
            )
        }
    } else if pos + 2 > chunk_end {
        lzss_be_tokens(inp, pos, chunk_end, chunk_start, flags, k + 1, out, expected_size)
    } else {
        let token = be_u16(inp, pos);
        if lzss_be_ref_len(token) > expected_size - out.len() {
            Err(None)
        } else {
            match lzss_be_copy(
                out,
                out.len() - lzss_be_ref_offset(token),
                0,
                lzss_be_ref_len(token),
                chunk_start,
            ) {
                None => Err(None),
                Some(out2) => lzss_be_tokens(
                    inp,
                    pos + 2,
                    chunk_end,
                    chunk_start,
                    flags,
                    k + 1,
                    out2,
                    expected_size,
                ),
            }
        }
    }
}

/// What `inp` decompresses to: exactly `expected_size` bytes, or a failure. A failure
/// carries the length reached where the input ran out, and `None` where a reference
/// cannot be followed.
pub open spec fn lzss_be_decompressed(inp: Seq<u8>, expected_size: int) -> Result<
    Seq<u8>,
    Option<usize>,
> {
    lzss_be_tokens(inp, 0, 0, 0, 0, 8, Seq::empty(), expected_size)
}

/// Decompresses a chunk-framed stream of literals and references.
#[verifier::loop_isolation(false)]
pub fn decompress_lzss_be(inp: &[u8], expected_size: usize) -> (r: Result<Vec<u8>, Option<usize>>)
    ensures
        lzss_outcome(r) == lzss_be_decompressed(inp@, expected_size as int),
{
    let mut out: Vec<u8> = Vec::new();
    let mut pos: usize = 0;
    let mut chunk_end: usize = 0;
    let mut chunk_start: usize = 0;
    let mut flags: u8 = 0;
    let mut k: u32 = 8;
    loop
        invariant
            pos <= chunk_end <= inp.len(),
            chunk_start <= out@.len() <= expected_size,
            k <= 8,
            lzss_be_tokens(
                inp@,
                pos as int,
                chunk_end as int,
                chunk_start as int,
                flags,
                k as int,
                out@,
                expected_size as int,
            ) == lzss_be_decompressed(inp@, expected_size as int),
        decreases inp.len() - pos, 8 - k,
    {
        if k >= 8 {
            if pos < chunk_end {
                flags = inp[pos];
                pos += 1;
                k = 0;
            } else if out.len() >= expected_size {
                return Ok(out);
            } else if inp.len() - pos < 2 {
                return Err(Some(out.len()));
            } else {
                let size: usize = inp[pos] as usize * 256 + inp[pos + 1] as usize;
                pos += 2;
                chunk_end = if size > inp.len() - pos {
                    inp.len()
                } else {
                    pos + size
                };
                chunk_start = out.len();
            }
        } else if flags & (1u8 << k) == 0 {
            if pos >= chunk_end {
                k = 8;
            } else if out.len() >= expected_size {
                pos += 1;
                k = 8;
            } else {
                out.push(inp[pos]);
                pos += 1;
                k += 1;
            }
        } else if chunk_end - pos < 2 {
            k += 1;
        } else {
            let token: usize = inp[pos] as usize * 256 + inp[pos + 1] as usize;
            let ref_off: usize = token / 32 + 1;
            let ref_len: usize = token % 32 + 3;
            if ref_len > expected_size - out.len() {
                return Err(None);
            }
            let ghost out0 = out@;
            let ghost start: int = out@.len() - ref_off;
            let len0: usize = out.len();
            let mut t: usize = 0;
            while t < ref_len
                invariant
                    t <= ref_len,
                    out@.len() == len0 + t,
                    len0 + ref_len <= expected_size,
                    lzss_be_copy(out@, start, t as int, ref_len as int, chunk_start as int)
                        == lzss_be_copy(out0, start, 0, ref_len as int, chunk_start as int),
                decreases ref_len - t,
            {
                let index: usize = if len0 + t - chunk_start < ref_off {
                    chunk_start
                } else {
                    len0 + t - ref_off
                };
                if index >= out.len() {
                    return Err(None);
                }
                let b = out[index];
                out.push(b);
                t += 1;
            }
            pos += 2;
            k += 1;
        }
    }
}

/// The size that the header announces, where the header is plausible: four bytes,
/// big-endian, more than 32 and less than 32 Mi, in a stream of more than 32 bytes.
pub open spec fn lzss_be_header(bytes: Seq<u8>) -> Option<usize> {
    if fits(bytes, 0, 4) && 32 < be_u32(bytes, 0) < 32 * 1024 * 1024 && bytes.len() > 32 {
        Some(be_u32(bytes, 0) as usize)
    } else {
        None
    }
}

/// What a stream with its header decompresses to.
pub open spec fn lzss_be_decoded(bytes: Seq<u8>) -> Result<Seq<u8>, DecodeError> {
    match lzss_be_header(bytes) {
        None => Err(DecodeError::LzssBeHeader),
        Some(expected) => match lzss_be_decompressed(bytes.skip(4), expected as int) {
            Ok(out) => Ok(out),
            Err(Some(actual)) => Err(DecodeError::LzssBeWrongSize { expected, actual }),
            Err(None) => Err(DecodeError::LzssBeBadReference),
        },
    }
}

/// Reads the header of a stream.
pub fn decode_header(bytes: &[u8]) -> (r: Option<usize>)
    ensures
        r == lzss_be_header(bytes@),
{
    match bytes.get_u32_at_be(0) {
        Some(size) => {
            if size > 32 && size < 32 * 1024 * 1024 && bytes.len() > 32 {
                Some(size as usize)
            } else {
                None
            }
        },
        None => None,
    }
}

/// Decompresses a stream with its header.
pub fn decode(bytes: &[u8]) -> (r: Result<Vec<u8>, DecodeError>)
    ensures
        bytes_outcome(r) == lzss_be_decoded(bytes@),
{
    match decode_header(bytes) {
        Some(expected) => {
            let body: &[u8] = &bytes[4..bytes.len()];
            assert(body@ == bytes@.skip(4));
            match decompress_lzss_be(body, expected) {
                Ok(out) => Ok(out),
                Err(Some(actual)) => Err(DecodeError::LzssBeWrongSize { expected, actual }),
                Err(None) => Err(DecodeError::LzssBeBadReference),
            }
        },
        None => Err(DecodeError::LzssBeHeader),
    }
}

} // verus!
