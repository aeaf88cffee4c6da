use crate::byte_slice::be_u32;
use crate::data_formats::{bytes_outcome, copy_within, extend_from_within};
use crate::error::DecodeError;
use vstd::prelude::*;

verus! {

/// The distance back that a back-reference token names: ten bits, stored less one.
pub open spec fn cps_backref_offset(control: u8, next: u8) -> int {
    (((control as usize & 3) << 8 | next as usize) + 1) as int
}

/// The number of bytes that a back-reference token copies: five bits, stored less three.
pub open spec fn cps_backref_len(control: u8) -> int {
    (((control as usize & 0x7C) >> 2) + 3) as int
}

/// What is returned once the tokens are used up: the output, if it has the announced size.
pub open spec fn cps_finish(out: Seq<u8>, expected: int) -> Result<Seq<u8>, DecodeError> {
    if out.len() == expected {
        Ok(out)
    } else {
        Err(DecodeError::CpsTooShort { expected: expected as usize, actual: out.len() as usize })
    }
}

/// The outcome of reading the tokens of `buf` from `pos` on, with `out` produced so far.
///
/// A control byte with its top bit set starts a back-reference of two bytes; any
/// other control byte `b` is followed by `b + 1` literal bytes, or by as many as are left.
/// A zero control byte whose literal no longer fits ends the stream.
pub open spec fn cps_body(buf: Seq<u8>, pos: int, out: Seq<u8>, expected: int) -> Result<
    Seq<u8>,
    DecodeError,
>
    decreases buf.len() - pos,
{
    if pos < 0 || pos >= buf.len() {
        cps_finish(out, expected)
    } else if buf[pos] & 0x80 != 0 {
        let offset = cps_backref_offset(buf[pos], buf[pos + 1]);
        let len = cps_backref_len(buf[pos]);
        if pos + 1 >= buf.len() {
            Err(DecodeError::CpsIncompleteBackref)
        } else if offset > out.len() {
            Err(DecodeError::CpsBackrefOffset)
        } else if out.len() - offset + len > expected {
            Err(DecodeError::CpsBackrefLength)
        } else if out.len() + len > expected {
            Err(DecodeError::CpsBackrefOverrun { expected: expected as usize })
        } else {
            cps_body(
                buf,
                pos + 2,
                extend_from_within(out, out.len() - offset, len as nat),
                expected,
            )
        }
    } else {
        let left = buf.len() - (pos + 1);
        let chunk = if buf[pos] + 1 > left {
            left
        } else {
            buf[pos] + 1
        };
        if out.len() + chunk > expected {
            if buf[pos] == 0 {
                cps_finish(out, expected)
            } else {
                Err(DecodeError::CpsRawOverrun { expected: expected as usize })
            }
        } else {
            cps_body(buf, pos + 1 + chunk, out + buf.subrange(pos + 1, pos + 1 + chunk), expected)
        }
    }
}

/// The size that the header announces: the top 24 bits of the first four bytes, big-endian.
pub open spec fn cps_expected_size(bytes: Seq<u8>) -> int {
    (be_u32(bytes, 0) as int) / 256
}

/// What a stream decompresses to. The tokens start at the fourth byte.
pub open spec fn cps_decoded(bytes: Seq<u8>) -> Result<Seq<u8>, DecodeError> {
    if bytes.len() < 4 {
        Err(DecodeError::ReadField)
    } else {
        cps_body(bytes.skip(3), 0, Seq::empty(), cps_expected_size(bytes))
    }
}

proof fn lemma_cps_token_bounds(control: u8, next: u8)
    ensures
        1 <= cps_backref_offset(control, next) <= 1024,
        3 <= cps_backref_len(control) <= 34,
{
    let c = control as usize;
    let n = next as usize;
    assert(((c & 3) << 8 | n) <= 1023 && ((c & 0x7C) >> 2) <= 31) by (bit_vector)
        requires
            c < 256,
            n < 256,
    ;
}

/// Decompresses a stream: its announced size, then back-reference and literal tokens.
#[verifier::loop_isolation(false)]
pub fn decode(bytes: &[u8]) -> (r: Result<Vec<u8>, DecodeError>)
    ensures
        bytes_outcome(r) == cps_decoded(bytes@),
{
    if bytes.len() < 4 {
        return Err(DecodeError::ReadField);
    }
    let expected_size: usize = (bytes[0] as usize) * 0x10000 + (bytes[1] as usize) * 0x100
        + bytes[2] as usize;
    let buf: &[u8] = &bytes[3..bytes.len()];
    assert(buf@ == bytes@.skip(3));
    let mut in_cursor: usize = 0;
    let mut out: Vec<u8> = Vec::new();
    while in_cursor < buf.len()
        invariant
            in_cursor <= buf.len(),
            out@.len() <= expected_size,
            expected_size < 0x100_0000,
            cps_body(buf@, in_cursor as int, out@, expected_size as int) == cps_body(
                buf@,
                0,
                Seq::empty(),
                expected_size as int,
            ),
        decreases buf.len() - in_cursor,
    {
        let cur_byte = buf[in_cursor];
        if cur_byte & 0x80 != 0 {
            if in_cursor + 1 >= buf.len() {
                return Err(DecodeError::CpsIncompleteBackref);
            }
            let next = buf[in_cursor + 1];
            proof {
                lemma_cps_token_bounds(cur_byte, next);
            }
            let backref_offset: usize = ((cur_byte as usize & 3) << 8 | next as usize) + 1;
            if backref_offset > out.len() {
                return Err(DecodeError::CpsBackrefOffset);
            }
            let backref_addr: usize = out.len() - backref_offset;
            let backref_len: usize = ((cur_byte as usize & 0x7C) >> 2) + 3;
            if backref_addr + backref_len > expected_size {
                return Err(DecodeError::CpsBackrefLength);
            }
            if out.len() + backref_len > expected_size {
                return Err(DecodeError::CpsBackrefOverrun { expected: expected_size });
            }
            copy_within(&mut out, backref_addr, backref_len);
            in_cursor += 2;
            assert(backref_offset == cps_backref_offset(cur_byte, next));
            assert(backref_len == cps_backref_len(cur_byte));
        } else {
            let mut chunk_len: usize = cur_byte as usize + 1;
            let start: usize = in_cursor + 1;
            if chunk_len > buf.len() - start {
                chunk_len = buf.len() - start;
            }
            if out.len() + chunk_len > expected_size {
                if cur_byte == 0 {
                    return if out.len() == expected_size {
                        Ok(out)
                    } else {
                        Err(DecodeError::CpsTooShort { expected: expected_size, actual: out.len() })
                    };
                } else {
                    return Err(DecodeError::CpsRawOverrun { expected: expected_size });
                }
            }
            let ghost before = out@;
            out.extend_from_slice(&buf[start..start + chunk_len]);
            assert(out@ == before + buf@.subrange(start as int, start + chunk_len));
            in_cursor = start + chunk_len;
        }
    }
    if out.len() == expected_size {
        Ok(out)
    } else {
        Err(DecodeError::CpsTooShort { expected: expected_size, actual: out.len() })
    }
}

} // verus!
