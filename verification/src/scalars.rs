//! Decoding and shrinking for the unsigned scalar types and `bool`.
//!
//! Multi-byte integers decode little-endian from zero-filled reads: byte
//! `i` contributes `value_of_byte * 256^i`.  A `bool` is the low bit of one
//! byte.  These byte-level rules are part of the wire contract: replayed
//! corpora depend on them bit for bit.
//!
//! A scalar shrinks toward zero: the candidate sequence offers `0` first
//! and then a halving descent `v/2, v/4, ..., 1`, so it is strictly
//! decreasing after the leading zero and never revisits the value itself.

use vstd::prelude::*;
use crate::cursor::{ByteCursor, byte_at, zf_used};
use crate::traits::Arbitrary;
use crate::Error;

verus! {

/// The halving descent below `v`: `v/2, v/4, ..., 1`, empty for `v <= 1`.
pub open spec fn halves8(v: u8) -> Seq<u8>
    decreases v,
{
    if v <= 1 {
        Seq::empty()
    } else {
        seq![v / 2] + halves8(v / 2)
    }
}

/// Every element of the halving descent lies strictly between `0` and `v`.
pub proof fn lemma_halves8_below(v: u8)
    ensures
        forall|i: int| 0 <= i < halves8(v).len() ==> 1 <= #[trigger] halves8(v)[i] < v,
    decreases v,
{
    if v > 1 {
        lemma_halves8_below(v / 2);
        assert forall|i: int| 0 <= i < halves8(v).len() implies 1 <= #[trigger] halves8(v)[i]
            < v by {
            if i > 0 {
                assert(halves8(v)[i] == halves8(v / 2)[i - 1]);
            }
        }
    }
}

/// The halving descent below `v`, for `u16`.
pub open spec fn halves16(v: u16) -> Seq<u16>
    decreases v,
{
    if v <= 1 {
        Seq::empty()
    } else {
        seq![v / 2] + halves16(v / 2)
    }
}

/// Every element of the `u16` halving descent lies strictly between `0` and `v`.
pub proof fn lemma_halves16_below(v: u16)
    ensures
        forall|i: int| 0 <= i < halves16(v).len() ==> 1 <= #[trigger] halves16(v)[i] < v,
    decreases v,
{
    if v > 1 {
        lemma_halves16_below(v / 2);
        assert forall|i: int| 0 <= i < halves16(v).len() implies 1 <= #[trigger] halves16(v)[i]
            < v by {
            if i > 0 {
                assert(halves16(v)[i] == halves16(v / 2)[i - 1]);
            }
        }
    }
}

/// The halving descent below `v`, for `u32`.
pub open spec fn halves32(v: u32) -> Seq<u32>
    decreases v,
{
    if v <= 1 {
        Seq::empty()
    } else {
        seq![v / 2] + halves32(v / 2)
    }
}

/// Every element of the `u32` halving descent lies strictly between `0` and `v`.
pub proof fn lemma_halves32_below(v: u32)
    ensures
        forall|i: int| 0 <= i < halves32(v).len() ==> 1 <= #[trigger] halves32(v)[i] < v,
    decreases v,
{
    if v > 1 {
        lemma_halves32_below(v / 2);
        assert forall|i: int| 0 <= i < halves32(v).len() implies 1 <= #[trigger] halves32(v)[i]
            < v by {
            if i > 0 {
                assert(halves32(v)[i] == halves32(v / 2)[i - 1]);
            }
        }
    }
}

/// The halving descent below `v`, for `u64`.
pub open spec fn halves64(v: u64) -> Seq<u64>
    decreases v,
{
    if v <= 1 {
        Seq::empty()
    } else {
        seq![v / 2] + halves64(v / 2)
    }
}

/// Every element of the `u64` halving descent lies strictly between `0` and `v`.
pub proof fn lemma_halves64_below(v: u64)
    ensures
        forall|i: int| 0 <= i < halves64(v).len() ==> 1 <= #[trigger] halves64(v)[i] < v,
    decreases v,
{
    if v > 1 {
        lemma_halves64_below(v / 2);
        assert forall|i: int| 0 <= i < halves64(v).len() implies 1 <= #[trigger] halves64(v)[i]
            < v by {
            if i > 0 {
                assert(halves64(v)[i] == halves64(v / 2)[i - 1]);
            }
        }
    }
}

/// The `u16` little-endian value of the first two zero-filled bytes.
pub open spec fn le16(rest: Seq<u8>) -> u16 {
    (byte_at(rest, 0) + 0x100 * byte_at(rest, 1)) as u16
}

/// The `u32` little-endian value of the first four zero-filled bytes.
pub open spec fn le32(rest: Seq<u8>) -> u32 {
    (byte_at(rest, 0) + 0x100 * byte_at(rest, 1) + 0x1_0000 * byte_at(rest, 2) + 0x100_0000
        * byte_at(rest, 3)) as u32
}

/// The `u64` little-endian value of the first eight zero-filled bytes.
pub open spec fn le64(rest: Seq<u8>) -> u64 {
    (byte_at(rest, 0) + 0x100 * byte_at(rest, 1) + 0x1_0000 * byte_at(rest, 2) + 0x100_0000
        * byte_at(rest, 3) + 0x1_0000_0000 * byte_at(rest, 4) + 0x100_0000_0000 * byte_at(rest, 5)
        + 0x1_0000_0000_0000 * byte_at(rest, 6) + 0x100_0000_0000_0000 * byte_at(rest, 7)) as u64
}

impl Arbitrary for u8 {
    open spec fn decoded(rest: Seq<u8>) -> u8 {
        byte_at(rest, 0)
    }

    open spec fn consumed(rest: Seq<u8>) -> nat {
        zf_used(rest, 1)
    }

    open spec fn hint_lo(depth: nat) -> nat {
        1
    }

    open spec fn hint_hi(depth: nat) -> Option<nat> {
        Some(1)
    }

    open spec fn shrunk(v: u8) -> Seq<u8> {
        if v == 0 {
            Seq::empty()
        } else {
            seq![0u8] + halves8(v)
        }
    }

    proof fn lemma_consumed_le(rest: Seq<u8>) {
    }

    proof fn lemma_hint_wf(depth: nat) {
    }

    proof fn lemma_shrunk_excludes(v: u8) {
        lemma_halves8_below(v);
    }

    fn arbitrary(u: &mut ByteCursor) -> (r: Result<u8, Error>) {
        Ok(u.fill_byte())
    }

    fn size_hint(depth: usize) -> (r: (usize, Option<usize>)) {
        (1, Some(1))
    }

    fn shrink(&self) -> (out: Vec<u8>) {
        let v: u8 = *self;
        let mut out: Vec<u8> = Vec::new();
        if v == 0 {
            return out;
        }
        out.push(0);
        let mut x: u8 = v;
        while x > 1
            invariant
                out@ + halves8(x) == Self::shrunk(v),
            decreases x,
        {
            let h: u8 = x / 2;
            out.push(h);
            assert(out@ + halves8(h) =~= Self::shrunk(v));
            x = h;
        }
        assert(out@ =~= Self::shrunk(v));
        out
    }
}

impl Arbitrary for u16 {
    open spec fn decoded(rest: Seq<u8>) -> u16 {
        le16(rest)
    }

    open spec fn consumed(rest: Seq<u8>) -> nat {
        zf_used(rest, 2)
    }

    open spec fn hint_lo(depth: nat) -> nat {
        2
    }

    open spec fn hint_hi(depth: nat) -> Option<nat> {
        Some(2)
    }

    open spec fn shrunk(v: u16) -> Seq<u16> {
        if v == 0 {
            Seq::empty()
        } else {
            seq![0u16] + halves16(v)
        }
    }

    proof fn lemma_consumed_le(rest: Seq<u8>) {
    }

    proof fn lemma_hint_wf(depth: nat) {
    }

    proof fn lemma_shrunk_excludes(v: u16) {
        lemma_halves16_below(v);
    }

    fn arbitrary(u: &mut ByteCursor) -> (r: Result<u16, Error>) {
        let b = u.fill_bytes(2);
        let v: u16 = b[0] as u16 + (b[1] as u16) * 0x100;
        Ok(v)
    }

    fn size_hint(depth: usize) -> (r: (usize, Option<usize>)) {
        (2, Some(2))
    }

    fn shrink(&self) -> (out: Vec<u16>) {
        let v: u16 = *self;
        let mut out: Vec<u16> = Vec::new();
        if v == 0 {
            return out;
        }
        out.push(0);
        let mut x: u16 = v;
        while x > 1
            invariant
                out@ + halves16(x) == Self::shrunk(v),
            decreases x,
        {
            let h: u16 = x / 2;
            out.push(h);
            assert(out@ + halves16(h) =~= Self::shrunk(v));
            x = h;
        }
        assert(out@ =~= Self::shrunk(v));
        out
    }
}

impl Arbitrary for u32 {
    open spec fn decoded(rest: Seq<u8>) -> u32 {
        le32(rest)
    }

    open spec fn consumed(rest: Seq<u8>) -> nat {
        zf_used(rest, 4)
    }

    open spec fn hint_lo(depth: nat) -> nat {
        4
    }

    open spec fn hint_hi(depth: nat) -> Option<nat> {
        Some(4)
    }

    open spec fn shrunk(v: u32) -> Seq<u32> {
        if v == 0 {
            Seq::empty()
        } else {
            seq![0u32] + halves32(v)
        }
    }

    proof fn lemma_consumed_le(rest: Seq<u8>) {
    }

    proof fn lemma_hint_wf(depth: nat) {
    }

    proof fn lemma_shrunk_excludes(v: u32) {
        lemma_halves32_below(v);
    }

    fn arbitrary(u: &mut ByteCursor) -> (r: Result<u32, Error>) {
        let b = u.fill_bytes(4);
        let v: u32 = b[0] as u32 + (b[1] as u32) * 0x100 + (b[2] as u32) * 0x1_0000 + (b[3] as u32)
            * 0x100_0000;
        Ok(v)
    }

    fn size_hint(depth: usize) -> (r: (usize, Option<usize>)) {
        (4, Some(4))
    }

    fn shrink(&self) -> (out: Vec<u32>) {
        let v: u32 = *self;
        let mut out: Vec<u32> = Vec::new();
        if v == 0 {
            return out;
        }
        out.push(0);
        let mut x: u32 = v;
        while x > 1
            invariant
                out@ + halves32(x) == Self::shrunk(v),
            decreases x,
        {
            let h: u32 = x / 2;
            out.push(h);
            assert(out@ + halves32(h) =~= Self::shrunk(v));
            x = h;
        }
        assert(out@ =~= Self::shrunk(v));
        out
    }
}

impl Arbitrary for u64 {
    open spec fn decoded(rest: Seq<u8>) -> u64 {
        le64(rest)
    }

    open spec fn consumed(rest: Seq<u8>) -> nat {
        zf_used(rest, 8)
    }

    open spec fn hint_lo(depth: nat) -> nat {
        8
    }

    open spec fn hint_hi(depth: nat) -> Option<nat> {
        Some(8)
    }

    open spec fn shrunk(v: u64) -> Seq<u64> {
        if v == 0 {
            Seq::empty()
        } else {
            seq![0u64] + halves64(v)
        }
    }

    proof fn lemma_consumed_le(rest: Seq<u8>) {
    }

    proof fn lemma_hint_wf(depth: nat) {
    }

    proof fn lemma_shrunk_excludes(v: u64) {
        lemma_halves64_below(v);
    }

    fn arbitrary(u: &mut ByteCursor) -> (r: Result<u64, Error>) {
        let b = u.fill_bytes(8);
        let v: u64 = b[0] as u64 + (b[1] as u64) * 0x100 + (b[2] as u64) * 0x1_0000 + (b[3] as u64)
            * 0x100_0000 + (b[4] as u64) * 0x1_0000_0000 + (b[5] as u64) * 0x100_0000_0000 + (b[6]
            as u64) * 0x1_0000_0000_0000 + (b[7] as u64) * 0x100_0000_0000_0000;
        Ok(v)
    }

    fn size_hint(depth: usize) -> (r: (usize, Option<usize>)) {
        (8, Some(8))
    }

    fn shrink(&self) -> (out: Vec<u64>) {
        let v: u64 = *self;
        let mut out: Vec<u64> = Vec::new();
        if v == 0 {
            return out;
        }
        out.push(0);
        let mut x: u64 = v;
        while x > 1
            invariant
                out@ + halves64(x) == Self::shrunk(v),
            decreases x,
        {
            let h: u64 = x / 2;
            out.push(h);
            assert(out@ + halves64(h) =~= Self::shrunk(v));
            x = h;
        }
        assert(out@ =~= Self::shrunk(v));
        out
    }
}

impl Arbitrary for bool {
    open spec fn decoded(rest: Seq<u8>) -> bool {
        byte_at(rest, 0) & 1 == 1
    }

    open spec fn consumed(rest: Seq<u8>) -> nat {
        zf_used(rest, 1)
    }

    open spec fn hint_lo(depth: nat) -> nat {
        1
    }

    open spec fn hint_hi(depth: nat) -> Option<nat> {
        Some(1)
    }

    open spec fn shrunk(v: bool) -> Seq<bool> {
        if v {
            seq![false]
        } else {
            Seq::empty()
        }
    }

    proof fn lemma_consumed_le(rest: Seq<u8>) {
    }

    proof fn lemma_hint_wf(depth: nat) {
    }

    proof fn lemma_shrunk_excludes(v: bool) {
    }

    fn arbitrary(u: &mut ByteCursor) -> (r: Result<bool, Error>) {
        let b: u8 = u.fill_byte();
        Ok(b & 1 == 1)
    }

    fn size_hint(depth: usize) -> (r: (usize, Option<usize>)) {
        (1, Some(1))
    }

    fn shrink(&self) -> (out: Vec<bool>) {
        let mut out: Vec<bool> = Vec::new();
        if *self {
            out.push(false);
        }
        assert(out@ =~= Self::shrunk(*self));
        out
    }
}

} // verus!
