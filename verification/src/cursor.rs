//! The byte cursor: a read-only buffer with an exclusive read position.
//!
//! Every consuming operation advances the position by exactly the number of
//! bytes it used and never past the end of the buffer.  Primitive reads use
//! a zero-fill fallback: a byte requested past the end reads as `0` and
//! consumes nothing, so generation degrades gracefully as the buffer runs
//! out instead of aborting.

use vstd::prelude::*;
use crate::Error;

verus! {

/// The byte at offset `i` of `rest` under the zero-fill rule: offsets past
/// the end read as zero.
pub open spec fn byte_at(rest: Seq<u8>, i: int) -> u8 {
    if 0 <= i < rest.len() {
        rest[i]
    } else {
        0
    }
}

/// How many bytes a zero-filled read of `n` bytes consumes from `rest`:
/// all `n` when available, otherwise everything that remains.
pub open spec fn zf_used(rest: Seq<u8>, n: nat) -> nat {
    if n <= rest.len() {
        n
    } else {
        rest.len()
    }
}

/// The continue flag decoded from `rest`: the low bit of the next byte,
/// with the zero-fill rule making an exhausted buffer read `false`.
/// This derivation is part of the wire contract: collection lengths,
/// option tags and similar gates all hang off this exact bit.
pub open spec fn continue_spec(rest: Seq<u8>) -> bool {
    byte_at(rest, 0) & 1 == 1
}

/// The continue flag is only ever set by a byte that is actually present:
/// an exhausted buffer reads `false`.
pub proof fn lemma_continue_needs_byte(rest: Seq<u8>)
    ensures
        rest.len() == 0 ==> !continue_spec(rest),
{
    if rest.len() == 0 {
        assert(byte_at(rest, 0) == 0);
        assert((0u8 & 1) != 1) by (bit_vector);
    }
}

/// A read-only byte buffer with an exclusive cursor.
pub struct ByteCursor {
    data: Vec<u8>,
    pos: usize,
}

impl ByteCursor {
    /// The whole underlying buffer; never changes after construction.
    pub closed spec fn bytes(&self) -> Seq<u8> {
        self.data@
    }

    /// The current read offset into the buffer.
    pub closed spec fn position(&self) -> nat {
        self.pos as nat
    }

    /// Well-formedness: the position never passes the end of the buffer.
    pub open spec fn wf(&self) -> bool {
        self.position() <= self.bytes().len()
    }

    /// The bytes not yet consumed.
    pub open spec fn rest(&self) -> Seq<u8> {
        self.bytes().skip(self.position() as int)
    }

    /// Wrap a buffer in a fresh cursor positioned at its start.
    pub fn new(data: Vec<u8>) -> (c: Self)
        ensures
            c.wf(),
            c.bytes() == data@,
            c.position() == 0,
    {
        ByteCursor { data, pos: 0 }
    }

    /// How many bytes remain to be consumed.
    pub fn remaining_len(&self) -> (n: usize)
        requires
            self.wf(),
        ensures
            n == self.rest().len(),
    {
        self.data.len() - self.pos
    }

    /// Read one byte under the zero-fill rule: past the end, yield `0` and
    /// consume nothing.
    pub fn fill_byte(&mut self) -> (b: u8)
        requires
            old(self).wf(),
        ensures
            final(self).wf(),
            final(self).bytes() == old(self).bytes(),
            final(self).position() == old(self).position() + zf_used(old(self).rest(), 1),
            b == byte_at(old(self).rest(), 0),
    {
        if self.pos < self.data.len() {
            let b: u8 = self.data[self.pos];
            self.pos = self.pos + 1;
            b
        } else {
            0
        }
    }

    /// Decode the boolean continue flag: the low bit of the next byte,
    /// zero-filled.  Consumes the byte it inspected, if any remained.
    pub fn continue_flag(&mut self) -> (f: bool)
        requires
            old(self).wf(),
        ensures
            final(self).wf(),
            final(self).bytes() == old(self).bytes(),
            final(self).position() == old(self).position() + zf_used(old(self).rest(), 1),
            f == continue_spec(old(self).rest()),
    {
        let b: u8 = self.fill_byte();
        b & 1 == 1
    }

    /// Read `n` bytes under the zero-fill rule: the result always has
    /// length `n`, bytes past the end of the buffer read as `0`, and the
    /// cursor advances by the number of real bytes used.
    pub fn fill_bytes(&mut self, n: usize) -> (r: Vec<u8>)
        requires
            old(self).wf(),
        ensures
            final(self).wf(),
            final(self).bytes() == old(self).bytes(),
            final(self).position() == old(self).position() + zf_used(old(self).rest(), n as nat),
            r@ == Seq::new(n as nat, |i: int| byte_at(old(self).rest(), i)),
    {
        let ghost rest0 = old(self).rest();
        let mut out: Vec<u8> = Vec::new();
        let mut i: usize = 0;
        while i < n
            invariant
                self.wf(),
                i <= n,
                self.bytes() == old(self).bytes(),
                rest0 == old(self).rest(),
                self.position() == old(self).position() + zf_used(rest0, i as nat),
                out@ == Seq::new(i as nat, |j: int| byte_at(rest0, j)),
            decreases n - i,
        {
            if self.pos < self.data.len() {
                out.push(self.data[self.pos]);
                self.pos = self.pos + 1;
            } else {
                out.push(0);
            }
            i = i + 1;
            assert(out@ =~= Seq::new(i as nat, |j: int| byte_at(rest0, j)));
        }
        out
    }

    /// Take exactly the next `n` bytes, or report `InsufficientData` and
    /// leave the cursor where it was.
    pub fn take(&mut self, n: usize) -> (r: Result<Vec<u8>, Error>)
        requires
            old(self).wf(),
        ensures
            final(self).wf(),
            final(self).bytes() == old(self).bytes(),
            n <= old(self).rest().len() ==> {
                &&& r is Ok
                &&& r->Ok_0@ == old(self).rest().take(n as int)
                &&& final(self).position() == old(self).position() + n
            },
            n > old(self).rest().len() ==> {
                &&& r == Result::<Vec<u8>, Error>::Err(Error::InsufficientData)
                &&& final(self).position() == old(self).position()
            },
    {
        if n > self.data.len() - self.pos {
            return Err(Error::InsufficientData);
        }
        let len: usize = self.data.len();
        let mut out: Vec<u8> = Vec::new();
        let mut i: usize = 0;
        while i < n
            invariant
                self.wf(),
                i <= n,
                len == self.bytes().len(),
                self.position() + n <= len,
                out@ == self.rest().take(i as int),
                self == old(self),
            decreases n - i,
        {
            out.push(self.data[self.pos + i]);
            i = i + 1;
            assert(out@ =~= self.rest().take(i as int));
        }
        self.pos = self.pos + n;
        assert(out@ =~= old(self).rest().take(n as int));
        Ok(out)
    }

    /// Take every remaining byte and advance the cursor to the end.
    pub fn take_rest(&mut self) -> (r: Vec<u8>)
        requires
            old(self).wf(),
        ensures
            final(self).wf(),
            final(self).bytes() == old(self).bytes(),
            final(self).position() == old(self).bytes().len(),
            r@ == old(self).rest(),
    {
        let len: usize = self.data.len();
        let n: usize = len - self.pos;
        let mut out: Vec<u8> = Vec::new();
        let mut i: usize = 0;
        while i < n
            invariant
                self.wf(),
                i <= n,
                len == self.bytes().len(),
                n == len - self.position(),
                out@ == self.rest().take(i as int),
                self == old(self),
            decreases n - i,
        {
            out.push(self.data[self.pos + i]);
            i = i + 1;
            assert(out@ =~= self.rest().take(i as int));
        }
        self.pos = self.data.len();
        assert(out@ =~= old(self).rest());
        out
    }
}

} // verus!
