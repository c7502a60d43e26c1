//! Reference instantiations of the decoding interface for representative
//! user-defined shapes: a named-field struct, a tuple struct, and an enum
//! with unit, tuple and struct variants.
//!
//! These are the hand-written counterparts of what a code-generation layer
//! over user type definitions emits: fields decode in declaration order,
//! an enum decodes a four-byte selector and reduces it modulo the variant
//! count, and shrinking pairs the fields' candidate sequences positionwise
//! while never crossing to a different variant.

use vstd::prelude::*;
use crate::cursor::{ByteCursor, byte_at, zf_used};
use crate::hint;
use crate::pairs::zip_min;
use crate::scalars::le32;
use crate::traits::Arbitrary;
use crate::Error;

verus! {

/// A three-field byte struct: fields decode in declaration order, one
/// byte each.
#[derive(Clone, Copy, Debug, PartialEq, Eq, Structural)]
pub struct Rgb {
    pub r: u8,
    pub g: u8,
    pub b: u8,
}

/// The smaller of three sequence lengths.
pub open spec fn min3(a: int, b: int, c: int) -> int {
    hint::min_nat(hint::min_nat(a, b), c)
}

impl Arbitrary for Rgb {
    open spec fn decoded(rest: Seq<u8>) -> Rgb {
        Rgb { r: byte_at(rest, 0), g: byte_at(rest, 1), b: byte_at(rest, 2) }
    }

    open spec fn consumed(rest: Seq<u8>) -> nat {
        zf_used(rest, 3)
    }

    open spec fn hint_lo(depth: nat) -> nat {
        3
    }

    open spec fn hint_hi(depth: nat) -> Option<nat> {
        Some(3)
    }

    open spec fn shrunk(v: Rgb) -> Seq<Rgb> {
        Seq::new(
            min3(
                <u8 as Arbitrary>::shrunk(v.r).len() as int,
                <u8 as Arbitrary>::shrunk(v.g).len() as int,
                <u8 as Arbitrary>::shrunk(v.b).len() as int,
            ) as nat,
            |i: int|
                Rgb {
                    r: <u8 as Arbitrary>::shrunk(v.r)[i],
                    g: <u8 as Arbitrary>::shrunk(v.g)[i],
                    b: <u8 as Arbitrary>::shrunk(v.b)[i],
                },
        )
    }

    proof fn lemma_consumed_le(rest: Seq<u8>) {
    }

    proof fn lemma_hint_wf(depth: nat) {
    }

    proof fn lemma_shrunk_excludes(v: Rgb) {
        <u8 as Arbitrary>::lemma_shrunk_excludes(v.r);
        assert forall|i: int|
            0 <= i < Self::shrunk(v).len() implies #[trigger] Self::shrunk(v)[i] != v by {
            assert(Self::shrunk(v)[i].r == <u8 as Arbitrary>::shrunk(v.r)[i]);
        }
    }

    fn arbitrary(u: &mut ByteCursor) -> (res: Result<Rgb, Error>) {
        let ghost rest0 = old(u).rest();
        let r: u8 = match <u8 as Arbitrary>::arbitrary(u) {
            Ok(x) => x,
            Err(e) => {
                return Err(e);
            },
        };
        proof {
            assert(byte_at(u.rest(), 0) == byte_at(rest0, 1));
            assert(byte_at(u.rest(), 1) == byte_at(rest0, 2));
        }
        let ghost rest1 = u.rest();
        let g: u8 = match <u8 as Arbitrary>::arbitrary(u) {
            Ok(x) => x,
            Err(e) => {
                return Err(e);
            },
        };
        proof {
            assert(byte_at(u.rest(), 0) == byte_at(rest1, 1));
        }
        let b: u8 = match <u8 as Arbitrary>::arbitrary(u) {
            Ok(x) => x,
            Err(e) => {
                return Err(e);
            },
        };
        Ok(Rgb { r, g, b })
    }

    fn size_hint(depth: usize) -> (res: (usize, Option<usize>)) {
        hint::and(
            <u8 as Arbitrary>::size_hint(depth),
            hint::and(<u8 as Arbitrary>::size_hint(depth), <u8 as Arbitrary>::size_hint(depth)),
        )
    }

    fn shrink(&self) -> (out: Vec<Rgb>) {
        let vr = <u8 as Arbitrary>::shrink(&self.r);
        let vg = <u8 as Arbitrary>::shrink(&self.g);
        let vb = <u8 as Arbitrary>::shrink(&self.b);
        let mut n: usize = vr.len();
        if vg.len() < n {
            n = vg.len();
        }
        if vb.len() < n {
            n = vb.len();
        }
        let mut out: Vec<Rgb> = Vec::new();
        let mut i: usize = 0;
        while i < n
            invariant
                i <= n,
                n == min3(vr@.len() as int, vg@.len() as int, vb@.len() as int),
                vr@ == <u8 as Arbitrary>::shrunk(self.r),
                vg@ == <u8 as Arbitrary>::shrunk(self.g),
                vb@ == <u8 as Arbitrary>::shrunk(self.b),
                out@ == Self::shrunk(*self).take(i as int),
            decreases n - i,
        {
            out.push(Rgb { r: vr[i], g: vg[i], b: vb[i] });
            i = i + 1;
            assert(out@ =~= Self::shrunk(*self).take(i as int));
        }
        proof {
            assert(out@ =~= Self::shrunk(*self));
        }
        out
    }
}

/// A tuple struct: a thin wrapper over the pair composition rule.
#[derive(Clone, Copy, Debug, PartialEq, Eq, Structural)]
pub struct MyTupleStruct(pub u8, pub bool);

impl Arbitrary for MyTupleStruct {
    open spec fn decoded(rest: Seq<u8>) -> MyTupleStruct {
        MyTupleStruct(
            <(u8, bool) as Arbitrary>::decoded(rest).0,
            <(u8, bool) as Arbitrary>::decoded(rest).1,
        )
    }

    open spec fn consumed(rest: Seq<u8>) -> nat {
        <(u8, bool) as Arbitrary>::consumed(rest)
    }

    open spec fn hint_lo(depth: nat) -> nat {
        <(u8, bool) as Arbitrary>::hint_lo(depth)
    }

    open spec fn hint_hi(depth: nat) -> Option<nat> {
        <(u8, bool) as Arbitrary>::hint_hi(depth)
    }

    open spec fn shrunk(v: MyTupleStruct) -> Seq<MyTupleStruct> {
        <(u8, bool) as Arbitrary>::shrunk((v.0, v.1)).map_values(
            |p: (u8, bool)| MyTupleStruct(p.0, p.1),
        )
    }

    proof fn lemma_consumed_le(rest: Seq<u8>) {
        <(u8, bool) as Arbitrary>::lemma_consumed_le(rest);
    }

    proof fn lemma_hint_wf(depth: nat) {
        <(u8, bool) as Arbitrary>::lemma_hint_wf(depth);
    }

    proof fn lemma_shrunk_excludes(v: MyTupleStruct) {
        <(u8, bool) as Arbitrary>::lemma_shrunk_excludes((v.0, v.1));
        assert forall|i: int|
            0 <= i < Self::shrunk(v).len() implies #[trigger] Self::shrunk(v)[i] != v by {
            assert(Self::shrunk(v)[i] == MyTupleStruct(
                <(u8, bool) as Arbitrary>::shrunk((v.0, v.1))[i].0,
                <(u8, bool) as Arbitrary>::shrunk((v.0, v.1))[i].1,
            ));
        }
    }

    fn arbitrary(u: &mut ByteCursor) -> (res: Result<MyTupleStruct, Error>) {
        let p = match <(u8, bool) as Arbitrary>::arbitrary(u) {
            Ok(p) => p,
            Err(e) => {
                return Err(e);
            },
        };
        Ok(MyTupleStruct(p.0, p.1))
    }

    fn size_hint(depth: usize) -> (res: (usize, Option<usize>)) {
        <(u8, bool) as Arbitrary>::size_hint(depth)
    }

    fn shrink(&self) -> (out: Vec<MyTupleStruct>) {
        let ps = <(u8, bool) as Arbitrary>::shrink(&(self.0, self.1));
        let ghost shr = <(u8, bool) as Arbitrary>::shrunk((self.0, self.1));
        let mut out: Vec<MyTupleStruct> = Vec::new();
        let mut i: usize = 0;
        while i < ps.len()
            invariant
                i <= ps.len(),
                ps@ == shr,
                out@ == Self::shrunk(*self).take(i as int),
                shr == <(u8, bool) as Arbitrary>::shrunk((self.0, self.1)),
            decreases ps.len() - i,
        {
            let p = ps[i];
            out.push(MyTupleStruct(p.0, p.1));
            i = i + 1;
            assert(out@ =~= Self::shrunk(*self).take(i as int));
        }
        proof {
            assert(out@ =~= Self::shrunk(*self));
        }
        out
    }
}

/// An enum with unit, tuple and struct variants.  The first four bytes
/// select the variant: their little-endian value reduced modulo the
/// variant count, in declaration order.
#[derive(Clone, Copy, Debug)]
pub enum MyEnum {
    Unit,
    Tuple(u8, u16),
    Struct { a: u32, b: (bool, u64) },
}

/// The variant selector decoded from `rest`.
pub open spec fn sel_of(rest: Seq<u8>) -> u32 {
    le32(rest) % 3
}

/// Whether two enum values carry the same variant.
pub open spec fn same_variant(x: MyEnum, y: MyEnum) -> bool {
    match (x, y) {
        (MyEnum::Unit, MyEnum::Unit) => true,
        (MyEnum::Tuple(..), MyEnum::Tuple(..)) => true,
        (MyEnum::Struct { .. }, MyEnum::Struct { .. }) => true,
        _ => false,
    }
}

impl Arbitrary for MyEnum {
    open spec fn decoded(rest: Seq<u8>) -> MyEnum {
        let rest1 = rest.skip(zf_used(rest, 4) as int);
        if sel_of(rest) == 0 {
            MyEnum::Unit
        } else if sel_of(rest) == 1 {
            MyEnum::Tuple(
                <(u8, u16) as Arbitrary>::decoded(rest1).0,
                <(u8, u16) as Arbitrary>::decoded(rest1).1,
            )
        } else {
            MyEnum::Struct {
                a: <(u32, (bool, u64)) as Arbitrary>::decoded(rest1).0,
                b: <(u32, (bool, u64)) as Arbitrary>::decoded(rest1).1,
            }
        }
    }

    open spec fn consumed(rest: Seq<u8>) -> nat {
        let rest1 = rest.skip(zf_used(rest, 4) as int);
        if sel_of(rest) == 0 {
            zf_used(rest, 4)
        } else if sel_of(rest) == 1 {
            zf_used(rest, 4) + <(u8, u16) as Arbitrary>::consumed(rest1)
        } else {
            zf_used(rest, 4) + <(u32, (bool, u64)) as Arbitrary>::consumed(rest1)
        }
    }

    open spec fn hint_lo(depth: nat) -> nat {
        4
    }

    open spec fn hint_hi(depth: nat) -> Option<nat> {
        Some(17)
    }

    open spec fn shrunk(v: MyEnum) -> Seq<MyEnum> {
        match v {
            MyEnum::Unit => Seq::empty(),
            MyEnum::Tuple(x, y) => zip_min(
                <u8 as Arbitrary>::shrunk(x),
                <u16 as Arbitrary>::shrunk(y),
            ).map_values(|p: (u8, u16)| MyEnum::Tuple(p.0, p.1)),
            MyEnum::Struct { a, b } => zip_min(
                <u32 as Arbitrary>::shrunk(a),
                <(bool, u64) as Arbitrary>::shrunk(b),
            ).map_values(|p: (u32, (bool, u64))| MyEnum::Struct { a: p.0, b: p.1 }),
        }
    }

    proof fn lemma_consumed_le(rest: Seq<u8>) {
        let rest1 = rest.skip(zf_used(rest, 4) as int);
        <(u8, u16) as Arbitrary>::lemma_consumed_le(rest1);
        <(u32, (bool, u64)) as Arbitrary>::lemma_consumed_le(rest1);
    }

    proof fn lemma_hint_wf(depth: nat) {
    }

    proof fn lemma_shrunk_excludes(v: MyEnum) {
        match v {
            MyEnum::Unit => {},
            MyEnum::Tuple(x, y) => {
                <u8 as Arbitrary>::lemma_shrunk_excludes(x);
                assert forall|i: int|
                    0 <= i < Self::shrunk(v).len() implies #[trigger] Self::shrunk(v)[i] != v by {
                    assert(Self::shrunk(v)[i] == MyEnum::Tuple(
                        <u8 as Arbitrary>::shrunk(x)[i],
                        <u16 as Arbitrary>::shrunk(y)[i],
                    ));
                }
            },
            MyEnum::Struct { a, b } => {
                <u32 as Arbitrary>::lemma_shrunk_excludes(a);
                assert forall|i: int|
                    0 <= i < Self::shrunk(v).len() implies #[trigger] Self::shrunk(v)[i] != v by {
                    assert(Self::shrunk(v)[i] == MyEnum::Struct {
                        a: <u32 as Arbitrary>::shrunk(a)[i],
                        b: <(bool, u64) as Arbitrary>::shrunk(b)[i],
                    });
                }
            },
        }
    }

    fn arbitrary(u: &mut ByteCursor) -> (res: Result<MyEnum, Error>) {
        let ghost rest0 = old(u).rest();
        let sel: u32 = match <u32 as Arbitrary>::arbitrary(u) {
            Ok(s) => s,
            Err(e) => {
                return Err(e);
            },
        };
        proof {
            assert(u.rest() =~= rest0.skip(zf_used(rest0, 4) as int));
        }
        let v: u32 = sel % 3;
        if v == 0 {
            Ok(MyEnum::Unit)
        } else if v == 1 {
            let p = match <(u8, u16) as Arbitrary>::arbitrary(u) {
                Ok(p) => p,
                Err(e) => {
                    return Err(e);
                },
            };
            Ok(MyEnum::Tuple(p.0, p.1))
        } else {
            let p = match <(u32, (bool, u64)) as Arbitrary>::arbitrary(u) {
                Ok(p) => p,
                Err(e) => {
                    return Err(e);
                },
            };
            Ok(MyEnum::Struct { a: p.0, b: p.1 })
        }
    }

    fn size_hint(depth: usize) -> (res: (usize, Option<usize>)) {
        hint::and(
            <u32 as Arbitrary>::size_hint(depth),
            hint::or(
                hint::or((0, Some(0)), <(u8, u16) as Arbitrary>::size_hint(depth)),
                <(u32, (bool, u64)) as Arbitrary>::size_hint(depth),
            ),
        )
    }

    fn shrink(&self) -> (out: Vec<MyEnum>) {
        let mut out: Vec<MyEnum> = Vec::new();
        match *self {
            MyEnum::Unit => {},
            MyEnum::Tuple(x, y) => {
                let ps = <(u8, u16) as Arbitrary>::shrink(&(x, y));
                let mut i: usize = 0;
                while i < ps.len()
                    invariant
                        i <= ps.len(),
                        ps@ == zip_min(<u8 as Arbitrary>::shrunk(x), <u16 as Arbitrary>::shrunk(y)),
                        *self == MyEnum::Tuple(x, y),
                        out@ == Self::shrunk(*self).take(i as int),
                    decreases ps.len() - i,
                {
                    let p = ps[i];
                    out.push(MyEnum::Tuple(p.0, p.1));
                    i = i + 1;
                    assert(out@ =~= Self::shrunk(*self).take(i as int));
                }
            },
            MyEnum::Struct { a, b } => {
                let ps = <(u32, (bool, u64)) as Arbitrary>::shrink(&(a, b));
                let mut i: usize = 0;
                while i < ps.len()
                    invariant
                        i <= ps.len(),
                        ps@ == zip_min(
                            <u32 as Arbitrary>::shrunk(a),
                            <(bool, u64) as Arbitrary>::shrunk(b),
                        ),
                        *self == (MyEnum::Struct { a, b }),
                        out@ == Self::shrunk(*self).take(i as int),
                    decreases ps.len() - i,
                {
                    let p = ps[i];
                    out.push(MyEnum::Struct { a: p.0, b: p.1 });
                    i = i + 1;
                    assert(out@ =~= Self::shrunk(*self).take(i as int));
                }
            },
        }
        proof {
            assert(out@ =~= Self::shrunk(*self));
        }
        out
    }
}

/// A unit-like variant has no simpler candidate: its shrink sequence is
/// empty.
pub proof fn lemma_unit_shrinks_to_nothing()
    ensures
        <MyEnum as Arbitrary>::shrunk(MyEnum::Unit) == Seq::<MyEnum>::empty(),
{
}

/// Shrinking never crosses variants: every candidate in a value's shrink
/// sequence carries the same variant as the value itself.
pub proof fn lemma_shrink_keeps_variant(e: MyEnum)
    ensures
        forall|i: int|
            0 <= i < <MyEnum as Arbitrary>::shrunk(e).len() ==> same_variant(
                e,
                #[trigger] <MyEnum as Arbitrary>::shrunk(e)[i],
            ),
{
    match e {
        MyEnum::Unit => {},
        MyEnum::Tuple(x, y) => {
            assert forall|i: int|
                0 <= i < <MyEnum as Arbitrary>::shrunk(e).len() implies same_variant(
                e,
                #[trigger] <MyEnum as Arbitrary>::shrunk(e)[i],
            ) by {
                assert(<MyEnum as Arbitrary>::shrunk(e)[i] == MyEnum::Tuple(
                    <u8 as Arbitrary>::shrunk(x)[i],
                    <u16 as Arbitrary>::shrunk(y)[i],
                ));
            }
        },
        MyEnum::Struct { a, b } => {
            assert forall|i: int|
                0 <= i < <MyEnum as Arbitrary>::shrunk(e).len() implies same_variant(
                e,
                #[trigger] <MyEnum as Arbitrary>::shrunk(e)[i],
            ) by {
                assert(<MyEnum as Arbitrary>::shrunk(e)[i] == MyEnum::Struct {
                    a: <u32 as Arbitrary>::shrunk(a)[i],
                    b: <(bool, u64) as Arbitrary>::shrunk(b)[i],
                });
            }
        },
    }
}

} // verus!
