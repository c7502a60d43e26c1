//! Bounded decoding: mapping raw bytes onto a caller-supplied inclusive
//! range.
//!
//! The reduction rule is bit-exact and documented here, since replayed
//! byte corpora depend on it.  For an inclusive bound `lo..=hi`:
//! - a single point (`lo == hi`) returns `lo` and consumes nothing;
//! - the full `u64` domain falls back to the unconstrained little-endian
//!   decode of eight zero-filled bytes;
//! - otherwise, with `span = hi - lo`, the sampler reads the fewest bytes
//!   whose range covers `span` (one byte per factor of 256), zero-filled,
//!   interprets them little-endian, and returns
//!   `lo + (value % (span + 1))`, which always lies inside the bound.
//!
//! An empty bound (`lo > hi`) is an error, `IncorrectFormat`, never a
//! silent endpoint swap.

use vstd::prelude::*;
use vstd::arithmetic::div_mod::lemma_mod_bound;
use crate::cursor::{ByteCursor, byte_at, zf_used};
use crate::scalars::le64;

verus! {

/// The little-endian value of a byte sequence.
pub open spec fn le_val(bytes: Seq<u8>) -> nat
    decreases bytes.len(),
{
    if bytes.len() == 0 {
        0
    } else {
        (bytes[0] + 256 * le_val(bytes.skip(1))) as nat
    }
}

/// The remaining bytes after one is consumed: an exhausted buffer stays
/// exhausted.
pub open spec fn drop_one(rest: Seq<u8>) -> Seq<u8> {
    if rest.len() == 0 {
        rest
    } else {
        rest.skip(1)
    }
}

/// The little-endian value of the first `k` zero-filled bytes of `rest`.
pub open spec fn le_val_at(rest: Seq<u8>, k: nat) -> nat
    decreases k,
{
    if k == 0 {
        0
    } else {
        (byte_at(rest, 0) + 256 * le_val_at(drop_one(rest), (k - 1) as nat)) as nat
    }
}

/// The loop-order little-endian value agrees with the zero-filled prefix
/// value it assembles.
pub proof fn lemma_le_val_at(bs: Seq<u8>, rest: Seq<u8>, k: nat)
    requires
        bs.len() == k,
        forall|i: int| 0 <= i < k ==> bs[i] == byte_at(rest, i),
    ensures
        le_val(bs) == le_val_at(rest, k),
    decreases k,
{
    if k > 0 {
        assert forall|i: int| 0 <= i < k - 1 implies bs.skip(1)[i] == byte_at(
            drop_one(rest),
            i,
        ) by {
            assert(bs.skip(1)[i] == bs[i + 1]);
            assert(byte_at(drop_one(rest), i) == byte_at(rest, i + 1));
        }
        lemma_le_val_at(bs.skip(1), drop_one(rest), (k - 1) as nat);
    }
}

/// How many bytes the sampler reads to cover `span`: the fewest `k` with
/// `span < 256^k`.
pub open spec fn span_bytes(span: u64) -> nat {
    if span < 0x100 {
        1
    } else if span < 0x1_0000 {
        2
    } else if span < 0x100_0000 {
        3
    } else if span < 0x1_0000_0000 {
        4
    } else if span < 0x100_0000_0000 {
        5
    } else if span < 0x1_0000_0000_0000 {
        6
    } else if span < 0x100_0000_0000_0000 {
        7
    } else {
        8
    }
}

/// The value a bounded `u64` decode takes from `rest` under `lo..=hi`.
pub open spec fn sample_spec(rest: Seq<u8>, lo: u64, hi: u64) -> u64 {
    if lo == hi {
        lo
    } else if lo == 0 && hi == u64::MAX {
        le64(rest)
    } else {
        let span = (hi - lo) as u64;
        let raw = le_val_at(rest, span_bytes(span));
        (lo + raw % ((span + 1) as nat)) as u64
    }
}

/// The bytes a bounded `u64` decode consumes from `rest` under `lo..=hi`.
pub open spec fn sample_used(rest: Seq<u8>, lo: u64, hi: u64) -> nat {
    if lo == hi {
        0
    } else if lo == 0 && hi == u64::MAX {
        zf_used(rest, 8)
    } else {
        zf_used(rest, span_bytes((hi - lo) as u64))
    }
}

/// The sampled value never leaves the bound.
pub proof fn lemma_sample_within(rest: Seq<u8>, lo: u64, hi: u64)
    requires
        lo <= hi,
    ensures
        lo <= sample_spec(rest, lo, hi) <= hi,
        sample_used(rest, lo, hi) <= rest.len(),
{
    if lo != hi && !(lo == 0 && hi == u64::MAX) {
        let span = (hi - lo) as u64;
        let raw = le_val_at(rest, span_bytes(span));
        lemma_mod_bound(raw as int, span + 1);
    }
}

/// A single-point bound returns the point and consumes nothing, whatever
/// the buffer holds.
pub proof fn lemma_sample_single_point(rest: Seq<u8>, p: u64)
    ensures
        sample_spec(rest, p, p) == p,
        sample_used(rest, p, p) == 0,
{
}

/// Decode a `u64` constrained to the inclusive bound `lo..=hi`.
pub fn sample_u64_in_range(u: &mut ByteCursor, lo: u64, hi: u64) -> (r: u64)
    requires
        old(u).wf(),
        lo <= hi,
    ensures
        final(u).wf(),
        final(u).bytes() == old(u).bytes(),
        final(u).position() == old(u).position() + sample_used(old(u).rest(), lo, hi),
        r == sample_spec(old(u).rest(), lo, hi),
        lo <= r <= hi,
{
    proof {
        lemma_sample_within(old(u).rest(), lo, hi);
    }
    if lo == hi {
        return lo;
    }
    if lo == 0 && hi == u64::MAX {
        let b = u.fill_bytes(8);
        let v: u64 = b[0] as u64 + (b[1] as u64) * 0x100 + (b[2] as u64) * 0x1_0000 + (b[3] as u64)
            * 0x100_0000 + (b[4] as u64) * 0x1_0000_0000 + (b[5] as u64) * 0x100_0000_0000 + (b[6]
            as u64) * 0x1_0000_0000_0000 + (b[7] as u64) * 0x100_0000_0000_0000;
        return v;
    }
    let span: u64 = hi - lo;
    let k: usize = if span < 0x100 {
        1
    } else if span < 0x1_0000 {
        2
    } else if span < 0x100_0000 {
        3
    } else if span < 0x1_0000_0000 {
        4
    } else if span < 0x100_0000_0000 {
        5
    } else if span < 0x1_0000_0000_0000 {
        6
    } else if span < 0x100_0000_0000_0000 {
        7
    } else {
        8
    };
    let b = u.fill_bytes(k);
    let ghost bs = b@;
    let mut v: u64 = 0;
    let mut i: usize = k;
    while i > 0
        invariant
            i <= k,
            k <= 8,
            b@ == bs,
            bs.len() == k,
            v == le_val(bs.skip(i as int)),
            v < bound256((k - i) as nat),
        decreases i,
    {
        i = i - 1;
        proof {
            assert(bs.skip(i as int)[0] == bs[i as int]);
            assert(bs.skip(i as int).skip(1) =~= bs.skip(i as int + 1));
            lemma_le_val_bound(bs.skip(i as int));
            assert(bound256((k - i) as nat) <= 0x1_0000_0000_0000_0000);
        }
        v = v * 0x100 + (b[i] as u64);
    }
    proof {
        assert(bs.skip(0) =~= bs);
        lemma_mod_bound(le_val(bs) as int, span + 1);
        lemma_le_val_at(bs, old(u).rest(), span_bytes(span));
    }
    let r: u64 = lo + v % (span + 1);
    r
}

/// `256^n`, for `n` up to the width of a `u64`.
pub open spec fn bound256(n: nat) -> int {
    if n == 0 {
        1
    } else if n == 1 {
        0x100
    } else if n == 2 {
        0x1_0000
    } else if n == 3 {
        0x100_0000
    } else if n == 4 {
        0x1_0000_0000
    } else if n == 5 {
        0x100_0000_0000
    } else if n == 6 {
        0x1_0000_0000_0000
    } else if n == 7 {
        0x100_0000_0000_0000
    } else {
        0x1_0000_0000_0000_0000
    }
}

/// A little-endian value is bounded by 256 to the number of its bytes, up
/// to the width of a `u64`.
pub proof fn lemma_le_val_bound(bytes: Seq<u8>)
    requires
        bytes.len() <= 8,
    ensures
        le_val(bytes) < bound256(bytes.len()),
    decreases bytes.len(),
{
    if bytes.len() > 0 {
        lemma_le_val_bound(bytes.skip(1));
    }
}

} // verus!
