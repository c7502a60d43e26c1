//! Decoding and shrinking for pairs: the product composition rule.
//!
//! A pair decodes its first component and then its second from whatever
//! bytes the first left behind, so byte consumption composes sequentially.
//! Its shrink sequence pairs the component shrink sequences positionwise
//! and stops at the shorter one, so both components move toward their own
//! minima together and no candidate repeats the original pair.

use vstd::prelude::*;
use crate::cursor::ByteCursor;
use crate::hint;
use crate::traits::Arbitrary;
use crate::Error;

verus! {

/// The positionwise pairing of two candidate sequences, cut to the shorter.
pub open spec fn zip_min<A, B>(sa: Seq<A>, sb: Seq<B>) -> Seq<(A, B)> {
    Seq::new(hint::min_nat(sa.len() as int, sb.len() as int) as nat, |i: int| (sa[i], sb[i]))
}

impl<A: Arbitrary, B: Arbitrary> Arbitrary for (A, B) {
    open spec fn decoded(rest: Seq<u8>) -> (A, B) {
        (A::decoded(rest), B::decoded(rest.skip(A::consumed(rest) as int)))
    }

    open spec fn consumed(rest: Seq<u8>) -> nat {
        A::consumed(rest) + B::consumed(rest.skip(A::consumed(rest) as int))
    }

    open spec fn hint_lo(depth: nat) -> nat {
        hint::sat_add(A::hint_lo(depth) as int, B::hint_lo(depth) as int) as nat
    }

    open spec fn hint_hi(depth: nat) -> Option<nat> {
        match (A::hint_hi(depth), B::hint_hi(depth)) {
            (Some(x), Some(y)) => Some(hint::sat_add(x as int, y as int) as nat),
            _ => None,
        }
    }

    open spec fn shrunk(v: (A, B)) -> Seq<(A, B)> {
        zip_min(A::shrunk(v.0), B::shrunk(v.1))
    }

    proof fn lemma_consumed_le(rest: Seq<u8>) {
        A::lemma_consumed_le(rest);
        B::lemma_consumed_le(rest.skip(A::consumed(rest) as int));
    }

    proof fn lemma_hint_wf(depth: nat) {
        A::lemma_hint_wf(depth);
        B::lemma_hint_wf(depth);
    }

    proof fn lemma_shrunk_excludes(v: (A, B)) {
        A::lemma_shrunk_excludes(v.0);
        assert forall|i: int|
            0 <= i < Self::shrunk(v).len() implies #[trigger] Self::shrunk(v)[i] != v by {
            assert(Self::shrunk(v)[i].0 == A::shrunk(v.0)[i]);
        }
    }

    fn arbitrary(u: &mut ByteCursor) -> (r: Result<(A, B), Error>) {
        let a = match A::arbitrary(u) {
            Ok(a) => a,
            Err(e) => {
                return Err(e);
            },
        };
        proof {
            A::lemma_consumed_le(old(u).rest());
            assert(u.rest() =~= old(u).rest().skip(A::consumed(old(u).rest()) as int));
        }
        let b = match B::arbitrary(u) {
            Ok(b) => b,
            Err(e) => {
                return Err(e);
            },
        };
        Ok((a, b))
    }

    fn size_hint(depth: usize) -> (r: (usize, Option<usize>)) {
        hint::and(A::size_hint(depth), B::size_hint(depth))
    }

    fn shrink(&self) -> (out: Vec<(A, B)>) {
        let mut sa = A::shrink(&self.0);
        let mut sb = B::shrink(&self.1);
        let ghost shra = A::shrunk(self.0);
        let ghost shrb = B::shrunk(self.1);
        let mut out: Vec<(A, B)> = Vec::new();
        let ghost mut k: int = 0;
        while sa.len() > 0 && sb.len() > 0
            invariant
                0 <= k,
                k <= shra.len(),
                k <= shrb.len(),
                sa@ == shra.skip(k),
                sb@ == shrb.skip(k),
                out@ == Self::shrunk(*self).take(k),
                shra == A::shrunk(self.0),
                shrb == B::shrunk(self.1),
            decreases sa.len(),
        {
            let a = sa.remove(0);
            let b = sb.remove(0);
            proof {
                assert(a == shra[k]);
                assert(b == shrb[k]);
            }
            out.push((a, b));
            proof {
                k = k + 1;
                assert(sa@ =~= shra.skip(k));
                assert(sb@ =~= shrb.skip(k));
                assert(out@ =~= Self::shrunk(*self).take(k));
            }
        }
        proof {
            assert(out@ =~= Self::shrunk(*self));
        }
        out
    }
}

} // verus!
