//! The decoding and shrinking capability interface.
//!
//! Every implementation ties its executable behaviour to specification
//! functions of the bytes remaining at the cursor, which makes decoding
//! deterministic by construction: two cursors holding the same remaining
//! bytes decode to the same value and consume the same number of bytes.

use vstd::prelude::*;
use crate::cursor::ByteCursor;
use crate::Error;

verus! {

/// A type that can be decoded from a byte cursor, report size hints, and
/// enumerate shrink candidates.
pub trait Arbitrary: Sized {
    /// The value this type decodes from the remaining bytes `rest`.
    spec fn decoded(rest: Seq<u8>) -> Self;

    /// How many bytes the decode consumes from `rest`.
    spec fn consumed(rest: Seq<u8>) -> nat;

    /// Lower size hint at recursion depth `depth`.
    spec fn hint_lo(depth: nat) -> nat;

    /// Upper size hint at recursion depth `depth`; `None` means unbounded.
    spec fn hint_hi(depth: nat) -> Option<nat>;

    /// The shrink sequence of `v`: every strictly simpler candidate that
    /// [`Arbitrary::shrink`] proposes, in order.
    spec fn shrunk(v: Self) -> Seq<Self>;

    /// A decode never consumes more bytes than remain.
    proof fn lemma_consumed_le(rest: Seq<u8>)
        ensures
            Self::consumed(rest) <= rest.len(),
    ;

    /// Size hints are well formed: the lower bound never exceeds a known
    /// upper bound, and both fit in `usize`.
    proof fn lemma_hint_wf(depth: nat)
        ensures
            Self::hint_lo(depth) <= usize::MAX,
            Self::hint_hi(depth) is Some ==> Self::hint_lo(depth) <= Self::hint_hi(
                depth,
            )->Some_0 <= usize::MAX,
    ;

    /// Shrinking never proposes the value being shrunk.
    proof fn lemma_shrunk_excludes(v: Self)
        ensures
            forall|i: int|
                0 <= i < Self::shrunk(v).len() ==> #[trigger] Self::shrunk(v)[i] != v,
    ;

    /// Decode one value, leaving the cursor just past the bytes consumed.
    /// The result and the new position are functions of the remaining bytes
    /// alone.
    fn arbitrary(u: &mut ByteCursor) -> (r: Result<Self, Error>)
        requires
            old(u).wf(),
        ensures
            final(u).wf(),
            final(u).bytes() == old(u).bytes(),
            final(u).position() == old(u).position() + Self::consumed(old(u).rest()),
            r is Ok,
            r->Ok_0 == Self::decoded(old(u).rest()),
    ;

    /// The static `(minimum, maximum-or-unbounded)` byte-consumption
    /// estimate at recursion depth `depth`.
    fn size_hint(depth: usize) -> (r: (usize, Option<usize>))
        ensures
            r.0 == Self::hint_lo(depth as nat),
            r.1 is Some <==> Self::hint_hi(depth as nat) is Some,
            r.1 is Some ==> r.1->Some_0 == Self::hint_hi(depth as nat)->Some_0,
    ;

    /// Enumerate the shrink candidates of `self`, simplest first.  The
    /// result is a freshly built, finite vector, so a shrink traversal
    /// always terminates and a repeated call replays the same sequence.
    fn shrink(&self) -> (out: Vec<Self>)
        ensures
            out@ == Self::shrunk(*self),
    ;
}

/// Decoding is deterministic: the decoded value and the bytes consumed are
/// functions of the remaining bytes alone, so the same buffer decoded twice
/// produces equal values and leaves the cursor at the same final position.
pub proof fn lemma_decode_deterministic<A: Arbitrary>(rest1: Seq<u8>, rest2: Seq<u8>)
    requires
        rest1 == rest2,
    ensures
        A::decoded(rest1) == A::decoded(rest2),
        A::consumed(rest1) == A::consumed(rest2),
{
}

/// Shrinking is restartable: the candidate sequence of a value is a
/// function of the value alone, so a fresh [`Arbitrary::shrink`] call
/// replays the same sequence from scratch.
pub proof fn lemma_shrink_restartable<A: Arbitrary>(v1: A, v2: A)
    requires
        v1 == v2,
    ensures
        A::shrunk(v1) == A::shrunk(v2),
{
}

} // verus!
