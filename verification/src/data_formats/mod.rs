use crate::error::DecodeError;
use vstd::prelude::*;

pub mod cps;
pub mod cps_pc;
pub mod lzss;
pub mod lzss_be;
pub mod lzss_dc;

verus! {

/// The view of what a decompressor returned.
pub open spec fn bytes_outcome(r: Result<Vec<u8>, DecodeError>) -> Result<Seq<u8>, DecodeError> {
    match r {
        Ok(v) => Ok(v@),
        Err(e) => Err(e),
    }
}

/// `out` followed by `n` bytes copied one at a time from position `from` of the
/// growing output, so that a copy may run into the bytes it has just written.
pub open spec fn extend_from_within(out: Seq<u8>, from: int, n: nat) -> Seq<u8>
    decreases n,
{
    if n == 0 {
        out
    } else {
        extend_from_within(out.push(out[from]), from + 1, (n - 1) as nat)
    }
}

/// A copy of `n` bytes from within the output makes it `n` bytes longer and leaves what was there.
pub proof fn lemma_extend_from_within(out: Seq<u8>, from: int, n: nat)
    ensures
        extend_from_within(out, from, n).len() == out.len() + n,
        forall|i: int| 0 <= i < out.len() ==> extend_from_within(out, from, n)[i] == out[i],
    decreases n,
{
    if n > 0 {
        let next = out.push(out[from]);
        lemma_extend_from_within(next, from + 1, (n - 1) as nat);
        assert forall|i: int| 0 <= i < out.len() implies extend_from_within(out, from, n)[i]
            == out[i] by {
            assert(next[i] == out[i]);
        }
    }
}

/// Appends `n` bytes to `out`, each read from the output itself, starting at `from`.
pub fn copy_within(out: &mut Vec<u8>, from: usize, n: usize)
    requires
        from < old(out)@.len() || n == 0,
    ensures
        final(out)@ == extend_from_within(old(out)@, from as int, n as nat),
        final(out)@.len() == old(out)@.len() + n,
{
    let mut k: usize = 0;
    while k < n
        invariant
            k <= n,
            from < old(out)@.len() || n == 0,
            out@.len() == old(out)@.len() + k,
            extend_from_within(out@, from + k, (n - k) as nat) == extend_from_within(
                old(out)@,
                from as int,
                n as nat,
            ),
        decreases n - k,
    {
        let len: usize = out.len();
        assert(from + k < len);
        let b = out[from + k];
        out.push(b);
        k += 1;
    }
}

} // verus!
