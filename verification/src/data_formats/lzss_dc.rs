use crate::byte_slice::be_u16;
use crate::data_formats::bytes_outcome;
use crate::data_formats::lzss::lzss_outcome;
use crate::data_formats::lzss_be::{
    decode_header,
    lzss_be_copy,
    lzss_be_finish,
    lzss_be_header,
    lzss_be_ref_len,
    lzss_be_ref_offset,
};
use crate::error::DecodeError;
use vstd::prelude::*;

verus! {

/// The outcome of reading `inp` from `pos` on, inside a chunk that ends at
/// `chunk_end` and whose output began at `chunk_start`.
///
/// The framing is that of the big-endian variant: chunks with a 16-bit length, flag
/// bytes that govern up to eight tokens, literals for clear bits and 16-bit
/// references for set bits. This variant is strict: a literal that does not fit, a
/// reference cut off by the end of its chunk, one that reaches back beyond the first
/// output byte, and one that does not fit all fail with `None`.
pub open spec fn lzss_dc_tokens(
    inp: Seq<u8>,
    pos: int,
    chunk_end: int,
    chunk_start: int,
    flags: u8,
    k: int,
    out: Seq<u8>,
    expected_size: int,
) -> Result<Seq<u8>, Option<usize>>
    decreases inp.len() - pos, 8 - k,
{
    if pos < 0 || pos > inp.len() || chunk_end > inp.len() {
        Err(None)
    } else if k < 0 || k >= 8 {
        if pos < chunk_end {
            lzss_dc_tokens(inp, pos + 1, chunk_end, chunk_start, inp[pos], 0, out, expected_size)
        } else if out.len() >= expected_size {
            lzss_be_finish(out, expected_size)
        } else if pos + 2 > inp.len() {
            Err(Some(out.len() as usize))
        } else {
            let end = if pos + 2 + be_u16(inp, pos) > inp.len() {
                inp.len() as int
            } else {
                pos + 2 + be_u16(inp, pos)
            };
            lzss_dc_tokens(inp, pos + 2, end, out.len() as int, flags, 8, out, expected_size)
        }
    } else if flags & (1u8 << k) == 0 {
        if pos >= chunk_end {
            lzss_dc_tokens(inp, pos, chunk_end, chunk_start, flags, 8, out, expected_size)
        } else if out.len() >= expected_size {
            Err(None)
        } else {
            lzss_dc_tokens(
                inp,
                pos + 1,
                chunk_end,
                chunk_start,
                flags,
                k + 1,
                out.push(inp[pos]),
                expected_size,
            )
        }
    } else if pos + 2 > chunk_end {
        Err(None)
    } else {
        let token = be_u16(inp, pos);
        if lzss_be_ref_offset(token) > out.len() {
            Err(None)
        } else if out.len() + lzss_be_ref_len(token) > expected_size {
            Err(None)
        } else {
            match lzss_be_copy(
                out,
                out.len() - lzss_be_ref_offset(token),
                0,
                lzss_be_ref_len(token),
                chunk_start,
            ) {
                None => Err(None),
                Some(out2) => lzss_dc_tokens(
                    inp,
                    pos + 2,
                    chunk_end,
                    chunk_start,
                    flags,
                    k + 1,
                    out2,
                    expected_size,
                ),
            }
        }
    }
}

/// What `inp` decompresses to: exactly `expected_size` bytes, or a failure. A failure
/// carries the length reached where the input ran out, and `None` where a token breaks
/// a rule.
pub open spec fn lzss_dc_decompressed(inp: Seq<u8>, expected_size: int) -> Result<
    Seq<u8>,
    Option<usize>,
> {
    lzss_dc_tokens(inp, 0, 0, 0, 0, 8, Seq::empty(), expected_size)
}

/// Decompresses a chunk-framed stream of literals and references, strictly.
#[verifier::loop_isolation(false)]
pub fn decompress_lzss_dc(inp: &[u8], expected_size: usize) -> (r: Result<Vec<u8>, Option<usize>>)
    ensures
        lzss_outcome(r) == lzss_dc_decompressed(inp@, expected_size as int),
{
    let mut out: Vec<u8> = Vec::new();
    let mut pos: usize = 0;
    let mut chunk_end: usize = 0;
    let mut chunk_start: usize = 0;
    let mut flags: u8 = 0;
    let mut k: u32 = 8;
    loop
        invariant
            pos <= chunk_end <= inp.len(),
            chunk_start <= out@.len() <= expected_size,
            k <= 8,
            lzss_dc_tokens(
                inp@,
                pos as int,
                chunk_end as int,
                chunk_start as int,
                flags,
                k as int,
                out@,
                expected_size as int,
            ) == lzss_dc_decompressed(inp@, expected_size as int),
        decreases inp.len() - pos, 8 - k,
    {
        if k >= 8 {
            if pos < chunk_end {
                flags = inp[pos];
                pos += 1;
                k = 0;
            } else if out.len() >= expected_size {
                return Ok(out);
            } else if inp.len() - pos < 2 {
                return Err(Some(out.len()));
            } else {
                let size: usize = inp[pos] as usize * 256 + inp[pos + 1] as usize;
                pos += 2;
                chunk_end = if size > inp.len() - pos {
                    inp.len()
                } else {
                    pos + size
                };
                chunk_start = out.len();
            }
        } else if flags & (1u8 << k) == 0 {
            if pos >= chunk_end {
                k = 8;
            } else if out.len() >= expected_size {
                return Err(None);
            } else {
                out.push(inp[pos]);
                pos += 1;
                k += 1;
            }
        } else if chunk_end - pos < 2 {
            return Err(None);
        } else {
            let token: usize = inp[pos] as usize * 256 + inp[pos + 1] as usize;
            let ref_off: usize = token / 32 + 1;
            let ref_len: usize = token % 32 + 3;
            if ref_off > out.len() {
                return Err(None);
            }
            if ref_len > expected_size - out.len() {
                return Err(None);
            }
            let ghost out0 = out@;
            let ghost start: int = out@.len() - ref_off;
            let len0: usize = out.len();
            let mut t: usize = 0;
            while t < ref_len
                invariant
                    t <= ref_len,
                    out@.len() == len0 + t,
                    len0 + ref_len <= expected_size,
                    lzss_be_copy(out@, start, t as int, ref_len as int, chunk_start as int)
                        == lzss_be_copy(out0, start, 0, ref_len as int, chunk_start as int),
                decreases ref_len - t,
            {
                let index: usize = if len0 + t - chunk_start < ref_off {
                    chunk_start
                } else {
                    len0 + t - ref_off
                };
                if index >= out.len() {
                    return Err(None);
                }
                let b = out[index];
                out.push(b);
                t += 1;
            }
            pos += 2;
            k += 1;
        }
    }
}

/// What a stream with its header decompresses to. The header is that of the
/// big-endian variant.
pub open spec fn lzss_dc_decoded(bytes: Seq<u8>) -> Result<Seq<u8>, DecodeError> {
    match lzss_be_header(bytes) {
        None => Err(DecodeError::LzssDcHeader),
        Some(expected) => match lzss_dc_decompressed(bytes.skip(4), expected as int) {
            Ok(out) => Ok(out),
            Err(Some(actual)) => Err(DecodeError::LzssDcTooShort { expected, actual }),
            Err(None) => Err(DecodeError::LzssDcBadToken),
        },
    }
}

/// Decompresses a stream with its header.
pub fn decode(bytes: &[u8]) -> (r: Result<Vec<u8>, DecodeError>)
    ensures
        bytes_outcome(r) == lzss_dc_decoded(bytes@),
{
    match decode_header(bytes) {
        Some(expected) => {
            let body: &[u8] = &bytes[4..bytes.len()];
            assert(body@ == bytes@.skip(4));
            match decompress_lzss_dc(body, expected) {
                Ok(out) => Ok(out),
                Err(Some(actual)) => Err(DecodeError::LzssDcTooShort { expected, actual }),
                Err(None) => Err(DecodeError::LzssDcBadToken),
            }
        },
        None => Err(DecodeError::LzssDcHeader),
    }
}

} // verus!
