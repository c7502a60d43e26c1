//! A self-referential type, showing how decoding and size hints stay
//! bounded on recursive shapes.
//!
//! A chain is a cons list of bytes.  Each link is gated by the continue
//! flag, so runtime decoding terminates through buffer exhaustion: every
//! link consumes at least its flag byte.  Size-hint computation cannot
//! lean on a buffer, so it carries an explicit depth and the recursion
//! guard short-circuits to the terminal hint `(0, Some(0))` past
//! [`crate::hint::MAX_DEPTH`], keeping the static estimate finite.

use vstd::prelude::*;
use crate::cursor::{ByteCursor, byte_at, continue_spec, lemma_continue_needs_byte, zf_used};
use crate::hint;
use crate::hint::MAX_DEPTH;
use crate::traits::Arbitrary;
use crate::Error;

verus! {

/// A cons list of bytes: the simplest self-referential shape.
#[derive(Debug)]
pub enum Chain {
    End,
    Link(u8, Box<Chain>),
}

/// How many bytes one link header consumes from `rest`: the flag byte and,
/// if a link follows, its payload byte, both zero-fill clamped.
pub open spec fn link_step(rest: Seq<u8>) -> int {
    1 + zf_used(rest.skip(1), 1) as int
}

impl Arbitrary for Chain {
    open spec fn decoded(rest: Seq<u8>) -> Chain
        decreases rest.len(),
    {
        if !continue_spec(rest) || rest.len() == 0 {
            Chain::End
        } else {
            Chain::Link(byte_at(rest, 1), Box::new(Chain::decoded(rest.skip(link_step(rest)))))
        }
    }

    open spec fn consumed(rest: Seq<u8>) -> nat
        decreases rest.len(),
    {
        if !continue_spec(rest) || rest.len() == 0 {
            zf_used(rest, 1)
        } else {
            (link_step(rest) + Chain::consumed(rest.skip(link_step(rest)))) as nat
        }
    }

    open spec fn hint_lo(depth: nat) -> nat {
        if depth >= MAX_DEPTH {
            0
        } else {
            1
        }
    }

    open spec fn hint_hi(depth: nat) -> Option<nat>
        decreases
                (if depth < MAX_DEPTH {
                    (MAX_DEPTH - depth) as nat
                } else {
                    0
                }),
    {
        if depth >= MAX_DEPTH {
            Some(0)
        } else {
            match Chain::hint_hi((depth + 1) as nat) {
                Some(h) => Some(hint::sat_add(2, h as int) as nat),
                None => None,
            }
        }
    }

    open spec fn shrunk(v: Chain) -> Seq<Chain> {
        match v {
            Chain::End => Seq::empty(),
            Chain::Link(_, _) => seq![Chain::End],
        }
    }

    proof fn lemma_consumed_le(rest: Seq<u8>)
        decreases rest.len(),
    {
        lemma_continue_needs_byte(rest);
        if continue_spec(rest) && rest.len() > 0 {
            Chain::lemma_consumed_le(rest.skip(link_step(rest)));
        }
    }

    proof fn lemma_hint_wf(depth: nat)
        decreases
                (if depth < MAX_DEPTH {
                    (MAX_DEPTH - depth) as nat
                } else {
                    0
                }),
    {
        if depth < MAX_DEPTH {
            Chain::lemma_hint_wf((depth + 1) as nat);
        }
    }

    proof fn lemma_shrunk_excludes(v: Chain) {
    }

    fn arbitrary(u: &mut ByteCursor) -> (r: Result<Chain, Error>)
        decreases old(u).rest().len(),
    {
        let ghost rest0 = old(u).rest();
        let flag = u.continue_flag();
        proof {
            lemma_continue_needs_byte(rest0);
        }
        if !flag {
            return Ok(Chain::End);
        }
        proof {
            assert(u.rest() =~= rest0.skip(1));
        }
        let x: u8 = u.fill_byte();
        proof {
            assert(byte_at(rest0.skip(1), 0) == byte_at(rest0, 1));
            assert(u.rest() =~= rest0.skip(link_step(rest0)));
        }
        let tail = match Chain::arbitrary(u) {
            Ok(t) => t,
            Err(e) => {
                return Err(e);
            },
        };
        Ok(Chain::Link(x, Box::new(tail)))
    }

    fn size_hint(depth: usize) -> (r: (usize, Option<usize>))
        decreases MAX_DEPTH - depth,
    {
        if hint::guard_exceeded(depth) {
            (0, Some(0))
        } else {
            hint::and(
                <bool as Arbitrary>::size_hint(depth),
                hint::or(
                    (0, Some(0)),
                    hint::and(<u8 as Arbitrary>::size_hint(depth), Chain::size_hint(depth + 1)),
                ),
            )
        }
    }

    fn shrink(&self) -> (out: Vec<Chain>) {
        let mut out: Vec<Chain> = Vec::new();
        match self {
            Chain::End => {},
            Chain::Link(_, _) => {
                out.push(Chain::End);
            },
        }
        proof {
            assert(out@ =~= Self::shrunk(*self));
        }
        out
    }
}

/// The length of a chain.
pub open spec fn chain_len(c: Chain) -> nat
    decreases c,
{
    match c {
        Chain::End => 0,
        Chain::Link(_, tail) => 1 + chain_len(*tail),
    }
}

/// The payload bytes of a chain, front first.
pub open spec fn chain_bytes(c: Chain) -> Seq<u8>
    decreases c,
{
    match c {
        Chain::End => Seq::empty(),
        Chain::Link(x, tail) => seq![x] + chain_bytes(*tail),
    }
}

impl Chain {
    /// The payload bytes of the chain, front first.
    pub fn to_bytes(&self) -> (out: Vec<u8>)
        ensures
            out@ == chain_bytes(*self),
    {
        let mut out: Vec<u8> = Vec::new();
        let mut cur: &Chain = self;
        loop
            invariant
                chain_bytes(*self) == out@ + chain_bytes(*cur),
            ensures
                out@ == chain_bytes(*self),
            decreases chain_len(*cur),
        {
            match cur {
                Chain::End => {
                    proof {
                        assert(out@ + chain_bytes(*cur) =~= out@);
                    }
                    break;
                },
                Chain::Link(x, tail) => {
                    out.push(*x);
                    proof {
                        assert(chain_bytes(*self) =~= out@ + chain_bytes(**tail));
                    }
                    cur = tail;
                },
            }
        }
        out
    }
}

} // verus!
