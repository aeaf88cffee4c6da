use crate::byte_slice::{fits, le_u32, ByteSlice};
use crate::data_formats::bytes_outcome;
use crate::error::DecodeError;
use vstd::prelude::*;

verus! {

/// The size of the window that back-references read from.
pub const LZSS_WINDOW: usize = 4096;

/// Where in the window the first output byte is written.
pub const LZSS_WINDOW_START: usize = 4078;

/// The window before any output: all zero.
pub open spec fn lzss_empty_window() -> Seq<u8> {
    Seq::new(LZSS_WINDOW as nat, |i: int| 0u8)
}

/// Where in the window the output byte number `n` is written.
pub open spec fn lzss_window_pos(n: int) -> int {
    (LZSS_WINDOW_START + n) % (LZSS_WINDOW as int)
}

/// The window position that a back-reference names: twelve bits, the low eight in its
/// first byte and the high four in the upper half of its second.
pub open spec fn lzss_backref_pos(first: u8, second: u8) -> int {
    first + (second / 16) * 256
}

/// The number of bytes that a back-reference copies: the lower half of its second byte, plus three.
pub open spec fn lzss_backref_len(second: u8) -> int {
    second % 16 + 3
}

/// Whether no more output is allowed: the output has reached its fixed size.
pub open spec fn lzss_full(out: Seq<u8>, limit: Option<int>) -> bool {
    limit matches Some(n) && out.len() >= n
}

/// The output and the window after `count - k` more bytes of a back-reference to window
/// position `from` have been copied; `None` where the output would pass its fixed size.
pub open spec fn lzss_copy(
    out: Seq<u8>,
    window: Seq<u8>,
    from: int,
    k: int,
    count: int,
    limit: Option<int>,
) -> Option<(Seq<u8>, Seq<u8>)>
    decreases count - k,
{
    if k >= count {
        Some((out, window))
    } else if lzss_full(out, limit) {
        None
    } else {
        let c = window[(from + k) % (LZSS_WINDOW as int)];
        lzss_copy(
            out.push(c),
            window.update(lzss_window_pos(out.len() as int), c),
            from,
            k + 1,
            count,
            limit,
        )
    }
}

/// The output once the tokens of `inp` from `pos` on are read; `None` where the output
/// would pass its fixed size.
///
/// A control byte governs the eight tokens after it, lowest bit first: a set bit
/// stands for one literal byte, a clear bit for a two-byte back-reference into the
/// window. `k` counts the tokens already read under `control`. The stream ends
/// where the input does.
pub open spec fn lzss_tokens(
    inp: Seq<u8>,
    pos: int,
    control: u8,
    k: int,
    out: Seq<u8>,
    window: Seq<u8>,
    limit: Option<int>,
) -> Option<Seq<u8>>
    decreases inp.len() - pos, 8 - k,
{
    if pos < 0 || pos >= inp.len() {
        Some(out)
    } else if k < 0 || k >= 8 {
        lzss_tokens(inp, pos + 1, inp[pos], 0, out, window, limit)
    } else if control & (1u8 << k) != 0 {
        if lzss_full(out, limit) {
            None
        } else {
            lzss_tokens(
                inp,
                pos + 1,
                control,
                k + 1,
                out.push(inp[pos]),
                window.update(lzss_window_pos(out.len() as int), inp[pos]),
                limit,
            )
        }
    } else if pos + 1 >= inp.len() {
        Some(out)
    } else {
        match lzss_copy(
            out,
            window,
            lzss_backref_pos(inp[pos], inp[pos + 1]),
            0,
            lzss_backref_len(inp[pos + 1]),
            limit,
        ) {
            None => None,
            Some((out2, window2)) => lzss_tokens(inp, pos + 2, control, k + 1, out2, window2, limit),
        }
    }
}

/// What `inp` decompresses to. Unless `growable`, the output must come to exactly
/// `expected_size` bytes: an output that would grow past it fails with `None`, one
/// that stays short of it fails with its length.
pub open spec fn lzss_decompressed(inp: Seq<u8>, expected_size: int, growable: bool) -> Result<
    Seq<u8>,
    Option<usize>,
> {
    let limit = if growable {
        None
    } else {
        Some(expected_size)
    };
    match lzss_tokens(inp, 0, 0, 8, Seq::empty(), lzss_empty_window(), limit) {
        None => Err(None),
        Some(out) => if growable || out.len() == expected_size {
            Ok(out)
        } else {
            Err(Some(out.len() as usize))
        },
    }
}

/// The view of what the decompressor returned.
pub open spec fn lzss_outcome(r: Result<Vec<u8>, Option<usize>>) -> Result<Seq<u8>, Option<usize>> {
    match r {
        Ok(v) => Ok(v@),
        Err(e) => Err(e),
    }
}

/// Decompresses a stream of control bytes, literals and back-references.
#[verifier::loop_isolation(false)]
pub fn decompress_lzss(inp: &[u8], expected_size: usize, growable: bool) -> (r: Result<
    Vec<u8>,
    Option<usize>,
>)
    ensures
        lzss_outcome(r) == lzss_decompressed(inp@, expected_size as int, growable),
{
    let ghost limit: Option<int> = if growable {
        None
    } else {
        Some(expected_size as int)
    };
    let mut out: Vec<u8> = Vec::new();
    let mut window: Vec<u8> = vec![0u8; LZSS_WINDOW];
    assert(window@ =~= lzss_empty_window());
    let mut r: usize = LZSS_WINDOW_START;
    let mut pos: usize = 0;
    let mut control: u8 = 0;
    let mut k: u32 = 8;
    while pos < inp.len()
        invariant
            pos <= inp.len(),
            k <= 8,
            window@.len() == LZSS_WINDOW,
            r == lzss_window_pos(out@.len() as int),
            lzss_tokens(inp@, pos as int, control, k as int, out@, window@, limit) == lzss_tokens(
                inp@,
                0,
                0,
                8,
                Seq::empty(),
                lzss_empty_window(),
                limit,
            ),
        decreases inp.len() - pos, 8 - k,
    {
        if k >= 8 {
            control = inp[pos];
            k = 0;
            pos += 1;
        } else if control & (1u8 << k) != 0 {
            if !growable && out.len() >= expected_size {
                return Err(None);
            }
            let c = inp[pos];
            out.push(c);
            window.set(r, c);
            r = if r + 1 == LZSS_WINDOW {
                0
            } else {
                r + 1
            };
            pos += 1;
            k += 1;
        } else if pos + 1 >= inp.len() {
            pos = inp.len();
        } else {
            let from: usize = inp[pos] as usize + (inp[pos + 1] as usize / 16) * 256;
            let count: usize = inp[pos + 1] as usize % 16 + 3;
            let ghost out0 = out@;
            let ghost window0 = window@;
            let mut n: usize = 0;
            while n < count
                invariant
                    n <= count,
                    window@.len() == LZSS_WINDOW,
                    r == lzss_window_pos(out@.len() as int),
                    lzss_copy(out@, window@, from as int, n as int, count as int, limit)
                        == lzss_copy(out0, window0, from as int, 0, count as int, limit),
                decreases count - n,
            {
                if !growable && out.len() >= expected_size {
                    return Err(None);
                }
                let c = window[(from + n) % LZSS_WINDOW];
                out.push(c);
                window.set(r, c);
                r = if r + 1 == LZSS_WINDOW {
                    0
                } else {
                    r + 1
                };
                n += 1;
            }
            pos += 2;
            k += 1;
        }
    }
    if growable || out.len() == expected_size {
        Ok(out)
    } else {
        Err(Some(out.len()))
    }
}

/// The size that the header announces, where the header is plausible: four bytes,
/// little-endian, more than 32 and less than 32 Mi, in a stream of more than 32 bytes.
pub open spec fn lzss_header(bytes: Seq<u8>) -> Option<usize> {
    if fits(bytes, 0, 4) && 32 < le_u32(bytes, 0) < 32 * 1024 * 1024 && bytes.len() > 32 {
        Some(le_u32(bytes, 0) as usize)
    } else {
        None
    }
}

/// What a stream with its header decompresses to. A header that announces the
/// stream's own length leaves the size of the output open.
pub open spec fn lzss_decoded(bytes: Seq<u8>) -> Result<Seq<u8>, DecodeError> {
    match lzss_header(bytes) {
        None => Err(DecodeError::LzssHeader),
        Some(expected) => match lzss_decompressed(
            bytes.skip(4),
            expected as int,
            expected == bytes.len(),
        ) {
            Ok(out) => Ok(out),
            Err(Some(actual)) => Err(DecodeError::LzssTooShort { expected, actual }),
            Err(None) => Err(DecodeError::LzssOverrun { expected }),
        },
    }
}

/// Reads the header of a stream.
pub fn decode_header(bytes: &[u8]) -> (r: Option<usize>)
    ensures
        r == lzss_header(bytes@),
{
    match bytes.get_u32_at(0) {
        Some(size) => {
            if size > 32 && size < 32 * 1024 * 1024 && bytes.len() > 32 {
                Some(size as usize)
            } else {
                None
            }
        },
        None => None,
    }
}

/// Decompresses a stream with its header.
pub fn decode(bytes: &[u8]) -> (r: Result<Vec<u8>, DecodeError>)
    ensures
        bytes_outcome(r) == lzss_decoded(bytes@),
{
    match decode_header(bytes) {
        Some(expected) => {
            let growable = expected == bytes.len();
            let body: &[u8] = &bytes[4..bytes.len()];
            assert(body@ == bytes@.skip(4));
            match decompress_lzss(body, expected, growable) {
                Ok(out) => Ok(out),
                Err(Some(actual)) => Err(DecodeError::LzssTooShort { expected, actual }),
                Err(None) => Err(DecodeError::LzssOverrun { expected }),
            }
        },
        None => Err(DecodeError::LzssHeader),
    }
}

} // verus!
