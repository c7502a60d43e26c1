//! Deterministic construction of structured values from untrusted byte
//! buffers, for fuzzing and property-based testing.
//!
//! A [`cursor::ByteCursor`] owns a read-only buffer and a position; decoding
//! primitives consume bytes from it and never run past the end.  The
//! [`traits::Arbitrary`] trait ties every decoded value to a specification
//! function of the bytes that were remaining, so the same buffer always
//! produces the same value.  Size hints bound how many bytes a type's decode
//! can consume, and the shrink interface enumerates strictly simpler
//! candidate values for test-case minimization.

use vstd::prelude::*;

pub mod cursor;
pub mod hint;
pub mod traits;
pub mod scalars;
pub mod options;
pub mod pairs;
pub mod collection;
pub mod range;
pub mod ranged;
pub mod examples;
pub mod recursive;

verus! {

/// The ways a decode can fail.
///
/// `InsufficientData` reports a required read past the end of the buffer;
/// callers that decode primitives use a zero-fill fallback instead, so it
/// only arises from exact-length reads.  `IncorrectFormat` reports an input
/// that cannot denote a value, such as an empty range bound.
#[derive(Clone, Copy, Debug, PartialEq, Eq, Structural)]
pub enum Error {
    InsufficientData,
    IncorrectFormat,
}

} // verus!
