//! The bounded-decoding capability: decoding a value constrained to a
//! caller-supplied inclusive range.
//!
//! An empty bound (`lo > hi`) is reported as `IncorrectFormat`, never
//! repaired by swapping endpoints.  A successful bounded decode never
//! returns a value outside the bound.

use vstd::prelude::*;
use crate::cursor::ByteCursor;
use crate::range::{sample_spec, sample_used, sample_u64_in_range, lemma_sample_within};
use crate::traits::Arbitrary;
use crate::Error;

verus! {

/// One end of a caller-supplied range bound over the `u64` domain.
#[derive(Clone, Copy, Debug, PartialEq, Eq, Structural)]
pub enum Endpoint {
    Included(u64),
    Excluded(u64),
    Unbounded,
}

/// The inclusive lower bound an endpoint denotes, if any value satisfies
/// it: an unbounded end is the domain minimum, an excluded `u64::MAX` is
/// unsatisfiable.
pub open spec fn lo_value(e: Endpoint) -> Option<u64> {
    match e {
        Endpoint::Included(x) => Some(x),
        Endpoint::Excluded(x) => if x == u64::MAX {
            None
        } else {
            Some((x + 1) as u64)
        },
        Endpoint::Unbounded => Some(0u64),
    }
}

/// The inclusive upper bound an endpoint denotes, if any value satisfies
/// it: an unbounded end is the domain maximum, an excluded `0` is
/// unsatisfiable.
pub open spec fn hi_value(e: Endpoint) -> Option<u64> {
    match e {
        Endpoint::Included(x) => Some(x),
        Endpoint::Excluded(x) => if x == 0 {
            None
        } else {
            Some((x - 1) as u64)
        },
        Endpoint::Unbounded => Some(u64::MAX),
    }
}

/// The inclusive `lo..=hi` form a pair of endpoints denotes, or nothing
/// when the range is empty.
pub open spec fn resolved(lo: Endpoint, hi: Endpoint) -> Option<(u64, u64)> {
    match (lo_value(lo), hi_value(hi)) {
        (Some(l), Some(h)) => if l <= h {
            Some((l, h))
        } else {
            None
        },
        _ => None,
    }
}

/// Turn a pair of inclusive, exclusive or unbounded endpoints into the
/// inclusive form the samplers consume.  An empty range is an
/// `IncorrectFormat` error, never a silent endpoint swap.
pub fn resolve_bounds(lo: &Endpoint, hi: &Endpoint) -> (r: Result<(u64, u64), Error>)
    ensures
        resolved(*lo, *hi) is Some ==> r == Result::<(u64, u64), Error>::Ok(
            resolved(*lo, *hi)->Some_0,
        ),
        resolved(*lo, *hi) is None ==> r == Result::<(u64, u64), Error>::Err(
            Error::IncorrectFormat,
        ),
{
    let l: u64 = match lo {
        Endpoint::Included(x) => *x,
        Endpoint::Excluded(x) => {
            if *x == u64::MAX {
                return Err(Error::IncorrectFormat);
            }
            *x + 1
        },
        Endpoint::Unbounded => 0,
    };
    let h: u64 = match hi {
        Endpoint::Included(x) => *x,
        Endpoint::Excluded(x) => {
            if *x == 0 {
                return Err(Error::IncorrectFormat);
            }
            *x - 1
        },
        Endpoint::Unbounded => u64::MAX,
    };
    if l <= h {
        Ok((l, h))
    } else {
        Err(Error::IncorrectFormat)
    }
}

/// A type that can be decoded under an inclusive bound `lo..=hi` over its
/// bound domain.
pub trait ArbitraryInRange: Arbitrary {
    /// The scalar domain the bound ranges over.
    type Bound;

    /// Whether `lo..=hi` denotes a nonempty range.
    spec fn bounds_ok(lo: Self::Bound, hi: Self::Bound) -> bool;

    /// Whether the bounded decode from `rest` succeeds.
    spec fn in_range_ok(rest: Seq<u8>, lo: Self::Bound, hi: Self::Bound) -> bool;

    /// The value a successful bounded decode takes from `rest`.
    spec fn in_range_decoded(rest: Seq<u8>, lo: Self::Bound, hi: Self::Bound) -> Self;

    /// Bytes the bounded decode consumes from `rest`, whether it succeeds
    /// or fails.
    spec fn in_range_consumed(rest: Seq<u8>, lo: Self::Bound, hi: Self::Bound) -> nat;

    /// Whether `v` satisfies the bound.
    spec fn within(v: Self, lo: Self::Bound, hi: Self::Bound) -> bool;

    /// A successful bounded decode never leaves the bound.
    proof fn lemma_in_range_within(rest: Seq<u8>, lo: Self::Bound, hi: Self::Bound)
        requires
            Self::bounds_ok(lo, hi),
            Self::in_range_ok(rest, lo, hi),
        ensures
            Self::within(Self::in_range_decoded(rest, lo, hi), lo, hi),
    ;

    /// A bounded decode never consumes more bytes than remain.
    proof fn lemma_in_range_consumed_le(rest: Seq<u8>, lo: Self::Bound, hi: Self::Bound)
        ensures
            Self::in_range_consumed(rest, lo, hi) <= rest.len(),
    ;

    /// Decode one value constrained to `lo..=hi`.  An empty bound is an
    /// `IncorrectFormat` error; the decode itself is a function of the
    /// remaining bytes and the bound alone.
    fn arbitrary_in_range(u: &mut ByteCursor, lo: &Self::Bound, hi: &Self::Bound) -> (r: Result<
        Self,
        Error,
    >)
        requires
            old(u).wf(),
        ensures
            final(u).wf(),
            final(u).bytes() == old(u).bytes(),
            final(u).position() == old(u).position() + Self::in_range_consumed(
                old(u).rest(),
                *lo,
                *hi,
            ),
            Self::in_range_ok(old(u).rest(), *lo, *hi) ==> r is Ok && r->Ok_0
                == Self::in_range_decoded(old(u).rest(), *lo, *hi),
            !Self::in_range_ok(old(u).rest(), *lo, *hi) ==> r == Result::<Self, Error>::Err(
                Error::IncorrectFormat,
            ),
    ;
}

impl ArbitraryInRange for u64 {
    type Bound = u64;

    open spec fn bounds_ok(lo: u64, hi: u64) -> bool {
        lo <= hi
    }

    open spec fn in_range_ok(rest: Seq<u8>, lo: u64, hi: u64) -> bool {
        lo <= hi
    }

    open spec fn in_range_decoded(rest: Seq<u8>, lo: u64, hi: u64) -> u64 {
        sample_spec(rest, lo, hi)
    }

    open spec fn in_range_consumed(rest: Seq<u8>, lo: u64, hi: u64) -> nat {
        if lo <= hi {
            sample_used(rest, lo, hi)
        } else {
            0
        }
    }

    open spec fn within(v: u64, lo: u64, hi: u64) -> bool {
        lo <= v <= hi
    }

    proof fn lemma_in_range_within(rest: Seq<u8>, lo: u64, hi: u64) {
        lemma_sample_within(rest, lo, hi);
    }

    proof fn lemma_in_range_consumed_le(rest: Seq<u8>, lo: u64, hi: u64) {
        if lo <= hi {
            lemma_sample_within(rest, lo, hi);
        }
    }

    fn arbitrary_in_range(u: &mut ByteCursor, lo: &u64, hi: &u64) -> (r: Result<u64, Error>) {
        if *lo > *hi {
            return Err(Error::IncorrectFormat);
        }
        Ok(sample_u64_in_range(u, *lo, *hi))
    }
}

impl ArbitraryInRange for u8 {
    type Bound = u8;

    open spec fn bounds_ok(lo: u8, hi: u8) -> bool {
        lo <= hi
    }

    open spec fn in_range_ok(rest: Seq<u8>, lo: u8, hi: u8) -> bool {
        lo <= hi
    }

    open spec fn in_range_decoded(rest: Seq<u8>, lo: u8, hi: u8) -> u8 {
        sample_spec(rest, lo as u64, hi as u64) as u8
    }

    open spec fn in_range_consumed(rest: Seq<u8>, lo: u8, hi: u8) -> nat {
        if lo <= hi {
            sample_used(rest, lo as u64, hi as u64)
        } else {
            0
        }
    }

    open spec fn within(v: u8, lo: u8, hi: u8) -> bool {
        lo <= v <= hi
    }

    proof fn lemma_in_range_within(rest: Seq<u8>, lo: u8, hi: u8) {
        lemma_sample_within(rest, lo as u64, hi as u64);
    }

    proof fn lemma_in_range_consumed_le(rest: Seq<u8>, lo: u8, hi: u8) {
        if lo <= hi {
            lemma_sample_within(rest, lo as u64, hi as u64);
        }
    }

    fn arbitrary_in_range(u: &mut ByteCursor, lo: &u8, hi: &u8) -> (r: Result<u8, Error>) {
        if *lo > *hi {
            return Err(Error::IncorrectFormat);
        }
        proof {
            lemma_sample_within(old(u).rest(), *lo as u64, *hi as u64);
        }
        let v: u64 = sample_u64_in_range(u, *lo as u64, *hi as u64);
        Ok(v as u8)
    }
}

impl ArbitraryInRange for u16 {
    type Bound = u16;

    open spec fn bounds_ok(lo: u16, hi: u16) -> bool {
        lo <= hi
    }

    open spec fn in_range_ok(rest: Seq<u8>, lo: u16, hi: u16) -> bool {
        lo <= hi
    }

    open spec fn in_range_decoded(rest: Seq<u8>, lo: u16, hi: u16) -> u16 {
        sample_spec(rest, lo as u64, hi as u64) as u16
    }

    open spec fn in_range_consumed(rest: Seq<u8>, lo: u16, hi: u16) -> nat {
        if lo <= hi {
            sample_used(rest, lo as u64, hi as u64)
        } else {
            0
        }
    }

    open spec fn within(v: u16, lo: u16, hi: u16) -> bool {
        lo <= v <= hi
    }

    proof fn lemma_in_range_within(rest: Seq<u8>, lo: u16, hi: u16) {
        lemma_sample_within(rest, lo as u64, hi as u64);
    }

    proof fn lemma_in_range_consumed_le(rest: Seq<u8>, lo: u16, hi: u16) {
        if lo <= hi {
            lemma_sample_within(rest, lo as u64, hi as u64);
        }
    }

    fn arbitrary_in_range(u: &mut ByteCursor, lo: &u16, hi: &u16) -> (r: Result<u16, Error>) {
        if *lo > *hi {
            return Err(Error::IncorrectFormat);
        }
        proof {
            lemma_sample_within(old(u).rest(), *lo as u64, *hi as u64);
        }
        let v: u64 = sample_u64_in_range(u, *lo as u64, *hi as u64);
        Ok(v as u16)
    }
}

impl ArbitraryInRange for u32 {
    type Bound = u32;

    open spec fn bounds_ok(lo: u32, hi: u32) -> bool {
        lo <= hi
    }

    open spec fn in_range_ok(rest: Seq<u8>, lo: u32, hi: u32) -> bool {
        lo <= hi
    }

    open spec fn in_range_decoded(rest: Seq<u8>, lo: u32, hi: u32) -> u32 {
        sample_spec(rest, lo as u64, hi as u64) as u32
    }

    open spec fn in_range_consumed(rest: Seq<u8>, lo: u32, hi: u32) -> nat {
        if lo <= hi {
            sample_used(rest, lo as u64, hi as u64)
        } else {
            0
        }
    }

    open spec fn within(v: u32, lo: u32, hi: u32) -> bool {
        lo <= v <= hi
    }

    proof fn lemma_in_range_within(rest: Seq<u8>, lo: u32, hi: u32) {
        lemma_sample_within(rest, lo as u64, hi as u64);
    }

    proof fn lemma_in_range_consumed_le(rest: Seq<u8>, lo: u32, hi: u32) {
        if lo <= hi {
            lemma_sample_within(rest, lo as u64, hi as u64);
        }
    }

    fn arbitrary_in_range(u: &mut ByteCursor, lo: &u32, hi: &u32) -> (r: Result<u32, Error>) {
        if *lo > *hi {
            return Err(Error::IncorrectFormat);
        }
        proof {
            lemma_sample_within(old(u).rest(), *lo as u64, *hi as u64);
        }
        let v: u64 = sample_u64_in_range(u, *lo as u64, *hi as u64);
        Ok(v as u32)
    }
}

} // verus!
