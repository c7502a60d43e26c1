//! Decoding and shrinking for `Option<A>`.
//!
//! An option is gated by the continue flag: one byte is consumed and its
//! low bit decides between `Some` (decode the payload next) and `None`.
//! `None` shrinks to nothing; `Some(x)` offers `None` first and then the
//! shrinks of `x` wrapped back in `Some`.

use vstd::prelude::*;
use crate::cursor::{ByteCursor, continue_spec, zf_used};
use crate::hint;
use crate::ranged::ArbitraryInRange;
use crate::traits::Arbitrary;
use crate::Error;

verus! {

impl<A: ArbitraryInRange> ArbitraryInRange for Option<A> {
    type Bound = A::Bound;

    open spec fn bounds_ok(lo: A::Bound, hi: A::Bound) -> bool {
        A::bounds_ok(lo, hi)
    }

    open spec fn in_range_ok(rest: Seq<u8>, lo: A::Bound, hi: A::Bound) -> bool {
        !continue_spec(rest) || A::in_range_ok(rest.skip(1), lo, hi)
    }

    open spec fn in_range_decoded(rest: Seq<u8>, lo: A::Bound, hi: A::Bound) -> Option<A> {
        if continue_spec(rest) {
            Some(A::in_range_decoded(rest.skip(1), lo, hi))
        } else {
            None
        }
    }

    open spec fn in_range_consumed(rest: Seq<u8>, lo: A::Bound, hi: A::Bound) -> nat {
        if continue_spec(rest) {
            1 + A::in_range_consumed(rest.skip(1), lo, hi)
        } else {
            zf_used(rest, 1)
        }
    }

    open spec fn within(v: Option<A>, lo: A::Bound, hi: A::Bound) -> bool {
        match v {
            None => true,
            Some(x) => A::within(x, lo, hi),
        }
    }

    proof fn lemma_in_range_within(rest: Seq<u8>, lo: A::Bound, hi: A::Bound) {
        if continue_spec(rest) {
            A::lemma_in_range_within(rest.skip(1), lo, hi);
        }
    }

    proof fn lemma_in_range_consumed_le(rest: Seq<u8>, lo: A::Bound, hi: A::Bound) {
        crate::cursor::lemma_continue_needs_byte(rest);
        if continue_spec(rest) {
            A::lemma_in_range_consumed_le(rest.skip(1), lo, hi);
        }
    }

    fn arbitrary_in_range(u: &mut ByteCursor, lo: &A::Bound, hi: &A::Bound) -> (r: Result<
        Option<A>,
        Error,
    >) {
        let flag = match <bool as Arbitrary>::arbitrary(u) {
            Ok(f) => f,
            Err(e) => {
                return Err(e);
            },
        };
        if flag {
            proof {
                crate::cursor::lemma_continue_needs_byte(old(u).rest());
                assert(u.rest() =~= old(u).rest().skip(1));
            }
            let x = match A::arbitrary_in_range(u, lo, hi) {
                Ok(x) => x,
                Err(e) => {
                    return Err(e);
                },
            };
            Ok(Some(x))
        } else {
            Ok(None)
        }
    }
}

impl<A: Arbitrary> Arbitrary for Option<A> {
    open spec fn decoded(rest: Seq<u8>) -> Option<A> {
        if continue_spec(rest) {
            Some(A::decoded(rest.skip(1)))
        } else {
            None
        }
    }

    open spec fn consumed(rest: Seq<u8>) -> nat {
        if continue_spec(rest) {
            1 + A::consumed(rest.skip(1))
        } else {
            zf_used(rest, 1)
        }
    }

    open spec fn hint_lo(depth: nat) -> nat {
        1
    }

    open spec fn hint_hi(depth: nat) -> Option<nat> {
        match A::hint_hi(depth) {
            Some(h) => Some(hint::sat_add(1, h as int) as nat),
            None => None,
        }
    }

    open spec fn shrunk(v: Option<A>) -> Seq<Option<A>> {
        match v {
            None => Seq::empty(),
            Some(x) => seq![None] + A::shrunk(x).map_values(|s: A| Some(s)),
        }
    }

    proof fn lemma_consumed_le(rest: Seq<u8>) {
        crate::cursor::lemma_continue_needs_byte(rest);
        if continue_spec(rest) {
            A::lemma_consumed_le(rest.skip(1));
        }
    }

    proof fn lemma_hint_wf(depth: nat) {
        A::lemma_hint_wf(depth);
    }

    proof fn lemma_shrunk_excludes(v: Option<A>) {
        match v {
            None => {},
            Some(x) => {
                A::lemma_shrunk_excludes(x);
                assert forall|i: int|
                    0 <= i < Self::shrunk(v).len() implies #[trigger] Self::shrunk(v)[i] != v by {
                    if i > 0 {
                        assert(Self::shrunk(v)[i] == Some(A::shrunk(x)[i - 1]));
                        assert(A::shrunk(x)[i - 1] != x);
                    }
                }
            },
        }
    }

    fn arbitrary(u: &mut ByteCursor) -> (r: Result<Option<A>, Error>) {
        let flag = match <bool as Arbitrary>::arbitrary(u) {
            Ok(f) => f,
            Err(e) => {
                return Err(e);
            },
        };
        if flag {
            proof {
                crate::cursor::lemma_continue_needs_byte(old(u).rest());
                assert(u.rest() =~= old(u).rest().skip(1));
            }
            let x = match A::arbitrary(u) {
                Ok(x) => x,
                Err(e) => {
                    return Err(e);
                },
            };
            Ok(Some(x))
        } else {
            Ok(None)
        }
    }

    fn size_hint(depth: usize) -> (r: (usize, Option<usize>)) {
        hint::and(
            <bool as Arbitrary>::size_hint(depth),
            hint::or((0, Some(0)), A::size_hint(depth)),
        )
    }

    fn shrink(&self) -> (out: Vec<Option<A>>) {
        let mut out: Vec<Option<A>> = Vec::new();
        match self {
            None => {},
            Some(x) => {
                out.push(None);
                let mut inner = A::shrink(x);
                let ghost shr = A::shrunk(*x);
                let ghost mut k: int = 0;
                while inner.len() > 0
                    invariant
                        0 <= k <= shr.len(),
                        inner@ == shr.skip(k),
                        out@ == seq![None::<A>] + shr.take(k).map_values(|s: A| Some(s)),
                    decreases inner.len(),
                {
                    let c = inner.remove(0);
                    proof {
                        assert(c == shr[k]);
                    }
                    out.push(Some(c));
                    proof {
                        k = k + 1;
                        assert(inner@ =~= shr.skip(k));
                        assert(out@ =~= seq![None::<A>] + shr.take(k).map_values(|s: A| Some(s)));
                    }
                }
                proof {
                    assert(shr.take(k) =~= shr);
                }
            },
        }
        proof {
            assert(out@ =~= Self::shrunk(*self));
        }
        out
    }
}

} // verus!
