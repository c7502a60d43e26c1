//! Variable-length collection decoding.
//!
//! Bounded mode asks the continue flag before each element: if the flag is
//! set and the element type's minimum size hint plausibly fits the bytes
//! that remain, one more element is decoded; otherwise the collection
//! ends.  The length is therefore driven entirely by buffer content, and
//! identical buffers always yield identical-length collections.
//!
//! Take-rest mode ignores the flag and keeps decoding elements until the
//! cursor is exhausted; a progress guard stops it if an element decode
//! consumed no bytes, so it terminates even for elements that can decode
//! from nothing.  It is destructive of all remaining input, so it suits
//! only the outermost or final field of a value.

use vstd::prelude::*;
use crate::cursor::{ByteCursor, continue_spec, lemma_continue_needs_byte, zf_used};
use crate::hint;
use crate::traits::Arbitrary;

verus! {

/// Whether bounded-mode decoding produces one more element from `rest`:
/// the continue flag is set, and after consuming it the element's minimum
/// size hint still fits.
pub open spec fn keep_going<A: Arbitrary>(rest: Seq<u8>) -> bool {
    &&& rest.len() > 0
    &&& continue_spec(rest)
    &&& A::hint_lo(0) + 1 <= rest.len()
}

/// Bytes one bounded-mode element round consumes from `rest`: the flag
/// byte plus the element decode, clamped to what remains.
pub open spec fn elem_step<A: Arbitrary>(rest: Seq<u8>) -> int {
    1 + hint::min_nat(A::consumed(rest.skip(1)) as int, rest.len() - 1)
}

/// The element sequence bounded-mode decoding yields from `rest`.
pub open spec fn vec_decoded<A: Arbitrary>(rest: Seq<u8>) -> Seq<A>
    decreases rest.len(),
{
    if !keep_going::<A>(rest) {
        Seq::empty()
    } else {
        seq![A::decoded(rest.skip(1))] + vec_decoded::<A>(rest.skip(elem_step::<A>(rest)))
    }
}

/// The bytes bounded-mode decoding consumes from `rest`, including the
/// final flag read that ended the collection.
pub open spec fn vec_consumed<A: Arbitrary>(rest: Seq<u8>) -> nat
    decreases rest.len(),
{
    if !keep_going::<A>(rest) {
        zf_used(rest, 1)
    } else {
        (elem_step::<A>(rest) + vec_consumed::<A>(rest.skip(elem_step::<A>(rest)))) as nat
    }
}

/// Bounded-mode decoding never consumes more bytes than remain.
pub proof fn lemma_vec_consumed_le<A: Arbitrary>(rest: Seq<u8>)
    ensures
        vec_consumed::<A>(rest) <= rest.len(),
    decreases rest.len(),
{
    if keep_going::<A>(rest) {
        lemma_vec_consumed_le::<A>(rest.skip(elem_step::<A>(rest)));
    }
}

/// Decode a variable-length collection in bounded mode.
pub fn arbitrary_vec<A: Arbitrary>(u: &mut ByteCursor) -> (out: Vec<A>)
    requires
        old(u).wf(),
    ensures
        final(u).wf(),
        final(u).bytes() == old(u).bytes(),
        out@ == vec_decoded::<A>(old(u).rest()),
        final(u).position() == old(u).position() + vec_consumed::<A>(old(u).rest()),
{
    let elem_hint = A::size_hint(0);
    let elem_lo: usize = elem_hint.0;
    let mut out: Vec<A> = Vec::new();
    loop
        invariant_except_break
            vec_decoded::<A>(old(u).rest()) == out@ + vec_decoded::<A>(u.rest()),
            vec_consumed::<A>(old(u).rest()) == u.position() - old(u).position()
                + vec_consumed::<A>(u.rest()),
        invariant
            u.wf(),
            u.bytes() == old(u).bytes(),
            old(u).position() <= u.position(),
            elem_lo == A::hint_lo(0),
        ensures
            u.wf(),
            u.bytes() == old(u).bytes(),
            out@ == vec_decoded::<A>(old(u).rest()),
            u.position() == old(u).position() + vec_consumed::<A>(old(u).rest()),
        decreases u.rest().len(),
    {
        let ghost rest_i = u.rest();
        let flag = u.continue_flag();
        proof {
            lemma_continue_needs_byte(rest_i);
        }
        if !flag {
            proof {
                assert(!keep_going::<A>(rest_i));
                assert(out@ + vec_decoded::<A>(rest_i) =~= out@);
            }
            break;
        }
        let rem: usize = u.remaining_len();
        if elem_lo > rem {
            proof {
                assert(!keep_going::<A>(rest_i));
                assert(out@ + vec_decoded::<A>(rest_i) =~= out@);
            }
            break;
        }
        proof {
            assert(keep_going::<A>(rest_i));
            assert(u.rest() =~= rest_i.skip(1));
            A::lemma_consumed_le(rest_i.skip(1));
        }
        let x = match A::arbitrary(u) {
            Ok(x) => x,
            Err(_) => {
                proof {
                    assert(false);
                }
                break;
            },
        };
        out.push(x);
        proof {
            assert(u.rest() =~= rest_i.skip(elem_step::<A>(rest_i)));
            assert(vec_decoded::<A>(rest_i) == seq![A::decoded(rest_i.skip(1))]
                + vec_decoded::<A>(rest_i.skip(elem_step::<A>(rest_i))));
            assert(vec_decoded::<A>(old(u).rest()) =~= out@ + vec_decoded::<A>(u.rest()));
        }
    }
    out
}

/// The size hint of a variable-length collection: its length is driven by
/// buffer content, so nothing is known statically and the estimate
/// conservatively degrades to zero-to-unbounded.
pub fn vec_size_hint(depth: usize) -> (r: (usize, Option<usize>))
    ensures
        r == (0usize, Option::<usize>::None),
{
    (0, None)
}

/// The shrink candidates of a collection holding `s`: the empty
/// collection first, then the first half (a strictly shorter prefix),
/// then same-length candidates whose head element is replaced by one of
/// its own shrink candidates.  Shorter candidates come before same-length
/// ones, and the collection itself never appears.
pub open spec fn vec_shrunk<A: Arbitrary>(s: Seq<A>) -> Seq<Seq<A>> {
    if s.len() == 0 {
        Seq::empty()
    } else if s.len() == 1 {
        seq![Seq::<A>::empty()] + A::shrunk(s[0]).map_values(|c: A| s.update(0, c))
    } else {
        seq![Seq::<A>::empty(), s.take((s.len() / 2) as int)] + A::shrunk(s[0]).map_values(
            |c: A| s.update(0, c),
        )
    }
}

/// A collection's shrink candidates never include the collection itself.
pub proof fn lemma_vec_shrunk_excludes<A: Arbitrary>(s: Seq<A>)
    ensures
        forall|i: int| 0 <= i < vec_shrunk::<A>(s).len() ==> #[trigger] vec_shrunk::<A>(s)[i] != s,
{
    if s.len() > 0 {
        A::lemma_shrunk_excludes(s[0]);
        let pre: int = if s.len() == 1 {
            1
        } else {
            2
        };
        assert forall|i: int| 0 <= i < vec_shrunk::<A>(s).len() implies #[trigger] vec_shrunk::<A>(
            s,
        )[i] != s by {
            if i >= pre {
                let c = A::shrunk(s[0])[i - pre];
                assert(vec_shrunk::<A>(s)[i] == s.update(0, c));
                assert(s.update(0, c)[0] == c);
            }
        }
    }
}

/// Enumerate the shrink candidates of a collection, shortest first.
pub fn shrink_vec<A: Arbitrary + Copy>(v: &Vec<A>) -> (out: Vec<Vec<A>>)
    ensures
        out@.len() == vec_shrunk::<A>(v@).len(),
        forall|i: int| 0 <= i < out@.len() ==> (#[trigger] out@[i])@ == vec_shrunk::<A>(v@)[i],
{
    let mut out: Vec<Vec<A>> = Vec::new();
    if v.len() == 0 {
        return out;
    }
    out.push(Vec::new());
    if v.len() >= 2 {
        let half = copy_prefix(v, v.len() / 2);
        out.push(half);
    }
    let ghost pre: int = out@.len() as int;
    let heads = A::shrink(&v[0]);
    let mut i: usize = 0;
    while i < heads.len()
        invariant
            i <= heads.len(),
            heads@ == A::shrunk(v@[0]),
            v@.len() > 0,
            pre == (if v@.len() == 1 {
                1int
            } else {
                2int
            }),
            out@.len() == pre + i,
            forall|j: int| 0 <= j < out@.len() ==> (#[trigger] out@[j])@ == vec_shrunk::<A>(v@)[j],
        decreases heads.len() - i,
    {
        let mut w = copy_prefix(v, v.len());
        proof {
            assert(w@ =~= v@);
        }
        w.set(0, heads[i]);
        out.push(w);
        i = i + 1;
        proof {
            assert(vec_shrunk::<A>(v@)[pre + i - 1] == v@.update(0, heads@[i - 1]));
        }
    }
    out
}

fn copy_prefix<A: Copy>(v: &Vec<A>, n: usize) -> (out: Vec<A>)
    requires
        n <= v@.len(),
    ensures
        out@ == v@.take(n as int),
{
    let mut out: Vec<A> = Vec::new();
    let mut i: usize = 0;
    while i < n
        invariant
            i <= n,
            n <= v@.len(),
            out@ == v@.take(i as int),
        decreases n - i,
    {
        out.push(v[i]);
        i = i + 1;
        assert(out@ =~= v@.take(i as int));
    }
    out
}

/// The element sequence take-rest decoding yields from `rest`: elements
/// decode one after another until the buffer is exhausted, or until an
/// element consumed nothing, which the progress guard makes final.
pub open spec fn take_rest_decoded<A: Arbitrary>(rest: Seq<u8>) -> Seq<A>
    decreases rest.len(),
{
    if rest.len() == 0 {
        Seq::empty()
    } else if A::consumed(rest) == 0 {
        seq![A::decoded(rest)]
    } else {
        seq![A::decoded(rest)] + take_rest_decoded::<A>(
            rest.skip(hint::min_nat(A::consumed(rest) as int, rest.len() as int)),
        )
    }
}

/// The bytes take-rest decoding consumes from `rest`.
pub open spec fn take_rest_consumed<A: Arbitrary>(rest: Seq<u8>) -> nat
    decreases rest.len(),
{
    if rest.len() == 0 || A::consumed(rest) == 0 {
        0
    } else {
        (hint::min_nat(A::consumed(rest) as int, rest.len() as int) + take_rest_consumed::<A>(
            rest.skip(hint::min_nat(A::consumed(rest) as int, rest.len() as int)),
        )) as nat
    }
}

/// Decode elements until every remaining byte is consumed, guarding
/// against elements that make no progress.
pub fn arbitrary_take_rest_vec<A: Arbitrary>(u: &mut ByteCursor) -> (out: Vec<A>)
    requires
        old(u).wf(),
    ensures
        final(u).wf(),
        final(u).bytes() == old(u).bytes(),
        out@ == take_rest_decoded::<A>(old(u).rest()),
        final(u).position() == old(u).position() + take_rest_consumed::<A>(old(u).rest()),
{
    let mut out: Vec<A> = Vec::new();
    loop
        invariant_except_break
            take_rest_decoded::<A>(old(u).rest()) == out@ + take_rest_decoded::<A>(u.rest()),
            take_rest_consumed::<A>(old(u).rest()) == u.position() - old(u).position()
                + take_rest_consumed::<A>(u.rest()),
        invariant
            u.wf(),
            u.bytes() == old(u).bytes(),
            old(u).position() <= u.position(),
        ensures
            u.wf(),
            u.bytes() == old(u).bytes(),
            out@ == take_rest_decoded::<A>(old(u).rest()),
            u.position() == old(u).position() + take_rest_consumed::<A>(old(u).rest()),
        decreases u.rest().len(),
    {
        let before: usize = u.remaining_len();
        if before == 0 {
            proof {
                assert(out@ + take_rest_decoded::<A>(u.rest()) =~= out@);
            }
            break;
        }
        let ghost rest_i = u.rest();
        proof {
            A::lemma_consumed_le(rest_i);
        }
        let x = match A::arbitrary(u) {
            Ok(x) => x,
            Err(_) => {
                proof {
                    assert(false);
                }
                break;
            },
        };
        out.push(x);
        let after: usize = u.remaining_len();
        if after == before {
            proof {
                assert(A::consumed(rest_i) == 0);
                assert(u.rest() =~= rest_i);
                assert(take_rest_decoded::<A>(rest_i) =~= seq![A::decoded(rest_i)]);
                assert(out@ =~= take_rest_decoded::<A>(old(u).rest()));
            }
            break;
        }
        proof {
            assert(A::consumed(rest_i) > 0);
            assert(u.rest() =~= rest_i.skip(
                hint::min_nat(A::consumed(rest_i) as int, rest_i.len() as int),
            ));
            assert(take_rest_decoded::<A>(old(u).rest()) =~= out@ + take_rest_decoded::<A>(
                u.rest(),
            ));
        }
    }
    out
}

} // verus!
