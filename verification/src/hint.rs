//! Size hints: static `(minimum, maximum-or-unbounded)` estimates of how
//! many bytes a type's decode consumes.
//!
//! Hints compose sequentially with [`and`] (field after field) and by
//! alternative with [`or`] (one of several shapes).  Hint computation for a
//! self-referential type passes an explicit depth; past [`MAX_DEPTH`] the
//! recursion guard short-circuits to the terminal hint `(0, Some(0))`
//! instead of recursing further.  Hints are estimates only: runtime
//! generation terminates through buffer exhaustion, not through hints.

use vstd::prelude::*;

verus! {

/// Depth cutoff for size-hint computation on self-referential types.
pub const MAX_DEPTH: usize = 20;

/// Addition clamped to the range of `usize`, the spec of how hint bounds
/// are summed without overflow.
pub open spec fn sat_add(a: int, b: int) -> int {
    if a + b > usize::MAX {
        usize::MAX as int
    } else {
        a + b
    }
}

/// The smaller of two naturals.
pub open spec fn min_nat(a: int, b: int) -> int {
    if a < b {
        a
    } else {
        b
    }
}

/// The larger of two naturals.
pub open spec fn max_nat(a: int, b: int) -> int {
    if a < b {
        b
    } else {
        a
    }
}

/// Sequential composition: a decode that consumes `a`'s bytes and then
/// `b`'s bytes.  Lower bounds add; upper bounds add, staying unbounded if
/// either side is unbounded.  Sums saturate at `usize::MAX`.
pub fn and(a: (usize, Option<usize>), b: (usize, Option<usize>)) -> (r: (usize, Option<usize>))
    ensures
        r.0 == sat_add(a.0 as int, b.0 as int),
        r.1 is Some <==> (a.1 is Some && b.1 is Some),
        (a.1 is Some && b.1 is Some) ==> r.1->Some_0 == sat_add(
            a.1->Some_0 as int,
            b.1->Some_0 as int,
        ),
{
    let lo: usize = sat_add_usize(a.0, b.0);
    let hi = match (a.1, b.1) {
        (Some(x), Some(y)) => Some(sat_add_usize(x, y)),
        _ => None,
    };
    (lo, hi)
}

/// Alternative composition: a decode that is exactly one of two shapes.
/// The lower bound is the smaller of the two; the upper bound is the larger,
/// unbounded if either alternative is unbounded.
pub fn or(a: (usize, Option<usize>), b: (usize, Option<usize>)) -> (r: (usize, Option<usize>))
    ensures
        r.0 == min_nat(a.0 as int, b.0 as int),
        r.1 is Some <==> (a.1 is Some && b.1 is Some),
        (a.1 is Some && b.1 is Some) ==> r.1->Some_0 == max_nat(
            a.1->Some_0 as int,
            b.1->Some_0 as int,
        ),
{
    let lo: usize = if a.0 < b.0 {
        a.0
    } else {
        b.0
    };
    let hi = match (a.1, b.1) {
        (Some(x), Some(y)) => Some(
            if x < y {
                y
            } else {
                x
            },
        ),
        _ => None,
    };
    (lo, hi)
}

/// Whether the recursion guard fires at `depth`: hint computation for a
/// self-referential type stops recursing here and reports `(0, Some(0))`.
pub fn guard_exceeded(depth: usize) -> (r: bool)
    ensures
        r == (depth >= MAX_DEPTH),
{
    depth >= MAX_DEPTH
}

fn sat_add_usize(a: usize, b: usize) -> (r: usize)
    ensures
        r == sat_add(a as int, b as int),
{
    if a > usize::MAX - b {
        usize::MAX
    } else {
        a + b
    }
}

} // verus!
