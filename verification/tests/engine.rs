use arbitrary::collection::{arbitrary_take_rest_vec, arbitrary_vec, shrink_vec, vec_size_hint};
use arbitrary::cursor::ByteCursor;
use arbitrary::hint;
use arbitrary::ranged::{ArbitraryInRange, Endpoint, resolve_bounds};
use arbitrary::recursive::Chain;
use arbitrary::traits::Arbitrary;
use arbitrary::Error;

#[test]
fn cursor_take_and_rest() {
    let mut u = ByteCursor::new(vec![1, 2, 3, 4, 5]);
    assert_eq!(u.remaining_len(), 5);

    let first = u.take(2).expect("two bytes are available");
    assert_eq!(first, vec![1, 2]);
    assert_eq!(u.remaining_len(), 3);

    // A request past the end fails and leaves the cursor where it was.
    assert_eq!(u.take(4), Err(Error::InsufficientData));
    assert_eq!(u.remaining_len(), 3);

    let rest = u.take_rest();
    assert_eq!(rest, vec![3, 4, 5]);
    assert_eq!(u.remaining_len(), 0);
}

#[test]
fn cursor_zero_fill() {
    // A primitive read past the end treats the missing bytes as zero.
    let mut u = ByteCursor::new(vec![1]);
    let v = u32::arbitrary(&mut u).unwrap();
    assert_eq!(v, 1);
    assert_eq!(u.remaining_len(), 0);

    let mut empty = ByteCursor::new(vec![]);
    assert_eq!(u64::arbitrary(&mut empty).unwrap(), 0);
    assert_eq!(empty.remaining_len(), 0);
}

#[test]
fn scalars_decode_little_endian() {
    let mut u = ByteCursor::new(vec![0x34, 0x12]);
    assert_eq!(u16::arbitrary(&mut u).unwrap(), 0x1234);

    let mut u = ByteCursor::new(vec![1, 2, 3, 4]);
    assert_eq!(u32::arbitrary(&mut u).unwrap(), 0x04030201);

    let mut u = ByteCursor::new(vec![1, 2, 3, 4, 5, 6, 7, 8]);
    assert_eq!(u64::arbitrary(&mut u).unwrap(), 0x0807060504030201);
}

#[test]
fn bool_is_low_bit() {
    let mut u = ByteCursor::new(vec![2]);
    assert_eq!(bool::arbitrary(&mut u).unwrap(), false);

    let mut u = ByteCursor::new(vec![3]);
    assert_eq!(bool::arbitrary(&mut u).unwrap(), true);
}

#[test]
fn numeric_shrink_halves_toward_zero() {
    assert_eq!(42u8.shrink(), vec![0, 21, 10, 5, 2, 1]);
    assert_eq!(1u8.shrink(), vec![0]);
    assert_eq!(0u8.shrink(), Vec::<u8>::new());
    assert_eq!(6u16.shrink(), vec![0, 3, 1]);
    assert_eq!(1024u32.shrink(), vec![0, 512, 256, 128, 64, 32, 16, 8, 4, 2, 1]);
    assert_eq!(3u64.shrink(), vec![0, 1]);
    assert_eq!(true.shrink(), vec![false]);
    assert_eq!(false.shrink(), Vec::<bool>::new());
}

#[test]
fn shrink_never_offers_the_value_back() {
    for v in 0..=255u8 {
        assert!(!v.shrink().contains(&v));
    }
}

#[test]
fn option_decodes_from_continue_flag() {
    let mut u = ByteCursor::new(vec![1, 7]);
    assert_eq!(Option::<u8>::arbitrary(&mut u).unwrap(), Some(7));
    assert_eq!(u.remaining_len(), 0);

    let mut u = ByteCursor::new(vec![2, 7]);
    assert_eq!(Option::<u8>::arbitrary(&mut u).unwrap(), None);
    assert_eq!(u.remaining_len(), 1);

    let mut u = ByteCursor::new(vec![]);
    assert_eq!(Option::<u8>::arbitrary(&mut u).unwrap(), None);
}

#[test]
fn option_shrink_offers_none_then_inner() {
    assert_eq!(
        Some(4u8).shrink(),
        vec![None, Some(0), Some(2), Some(1)]
    );
    assert_eq!(None::<u8>.shrink(), Vec::<Option<u8>>::new());
}

#[test]
fn option_in_range() {
    let mut u = ByteCursor::new(vec![1, 5]);
    let v = Option::<u8>::arbitrary_in_range(&mut u, &10, &20).unwrap();
    assert_eq!(v, Some(15));

    let mut u = ByteCursor::new(vec![2]);
    let v = Option::<u8>::arbitrary_in_range(&mut u, &10, &20).unwrap();
    assert_eq!(v, None);

    // An empty bound only surfaces when the payload is actually decoded.
    let mut u = ByteCursor::new(vec![1, 5]);
    assert_eq!(
        Option::<u8>::arbitrary_in_range(&mut u, &20, &10),
        Err(Error::IncorrectFormat)
    );
    let mut u = ByteCursor::new(vec![2]);
    assert_eq!(
        Option::<u8>::arbitrary_in_range(&mut u, &20, &10).unwrap(),
        None
    );
}

#[test]
fn in_range_never_leaves_the_bound() {
    for b in 0..=255u8 {
        let mut u = ByteCursor::new(vec![b]);
        let v = u8::arbitrary_in_range(&mut u, &5, &9).unwrap();
        assert!((5..=9).contains(&v));
    }
}

#[test]
fn in_range_reduction_is_bit_exact() {
    // span 10 needs one byte: 5 % 11 over the base of the bound.
    let mut u = ByteCursor::new(vec![5]);
    assert_eq!(u8::arbitrary_in_range(&mut u, &10, &20).unwrap(), 15);

    // span 300 needs two little-endian bytes.
    let mut u = ByteCursor::new(vec![0x2C, 0x01]);
    assert_eq!(u32::arbitrary_in_range(&mut u, &0, &300).unwrap(), 300);

    // The full domain falls back to the unconstrained decode.
    let mut u = ByteCursor::new(vec![1, 2, 3, 4, 5, 6, 7, 8]);
    assert_eq!(
        u64::arbitrary_in_range(&mut u, &0, &u64::MAX).unwrap(),
        0x0807060504030201
    );
}

#[test]
fn single_point_bound_ignores_the_buffer() {
    let mut u = ByteCursor::new(vec![0xFF, 0xFF, 0xFF]);
    assert_eq!(u32::arbitrary_in_range(&mut u, &7, &7).unwrap(), 7);
    // Nothing was consumed.
    assert_eq!(u.remaining_len(), 3);
}

#[test]
fn empty_bound_is_an_error() {
    let mut u = ByteCursor::new(vec![1, 2, 3]);
    assert_eq!(u8::arbitrary_in_range(&mut u, &9, &3), Err(Error::IncorrectFormat));
    assert_eq!(u.remaining_len(), 3);
}

#[test]
fn endpoints_resolve_to_inclusive_bounds() {
    assert_eq!(
        resolve_bounds(&Endpoint::Included(3), &Endpoint::Excluded(10)),
        Ok((3, 9))
    );
    assert_eq!(
        resolve_bounds(&Endpoint::Excluded(3), &Endpoint::Included(10)),
        Ok((4, 10))
    );
    assert_eq!(
        resolve_bounds(&Endpoint::Unbounded, &Endpoint::Unbounded),
        Ok((0, u64::MAX))
    );
    // Empty ranges are rejected, never repaired.
    assert_eq!(
        resolve_bounds(&Endpoint::Included(5), &Endpoint::Excluded(5)),
        Err(arbitrary::Error::IncorrectFormat)
    );
    assert_eq!(
        resolve_bounds(&Endpoint::Included(0), &Endpoint::Excluded(0)),
        Err(arbitrary::Error::IncorrectFormat)
    );
    assert_eq!(
        resolve_bounds(&Endpoint::Excluded(u64::MAX), &Endpoint::Unbounded),
        Err(arbitrary::Error::IncorrectFormat)
    );
}

#[test]
fn decoding_is_deterministic() {
    let bytes = vec![1, 0, 0, 1, 9, 8, 7, 6, 5, 4, 3, 2, 1, 0, 1, 2, 3];

    let mut u1 = ByteCursor::new(bytes.clone());
    let mut u2 = ByteCursor::new(bytes.clone());
    let rgb1 = arbitrary::examples::Rgb::arbitrary(&mut u1).unwrap();
    let rgb2 = arbitrary::examples::Rgb::arbitrary(&mut u2).unwrap();
    assert_eq!(rgb1, rgb2);
    assert_eq!(u1.remaining_len(), u2.remaining_len());

    let mut u1 = ByteCursor::new(bytes.clone());
    let mut u2 = ByteCursor::new(bytes);
    let v1 = arbitrary_vec::<u16>(&mut u1);
    let v2 = arbitrary_vec::<u16>(&mut u2);
    assert_eq!(v1, v2);
    assert_eq!(u1.remaining_len(), u2.remaining_len());
}

#[test]
fn bounded_collection_follows_the_flag() {
    // flag 1, element 7, flag 1, element 9, flag 0.
    let mut u = ByteCursor::new(vec![1, 7, 1, 9, 0]);
    assert_eq!(arbitrary_vec::<u8>(&mut u), vec![7, 9]);
    assert_eq!(u.remaining_len(), 0);

    // The flag is set but no element can plausibly fit.
    let mut u = ByteCursor::new(vec![1]);
    assert_eq!(arbitrary_vec::<u8>(&mut u), Vec::<u8>::new());
    assert_eq!(u.remaining_len(), 0);

    let mut u = ByteCursor::new(vec![]);
    assert_eq!(arbitrary_vec::<u8>(&mut u), Vec::<u8>::new());
}

#[test]
fn take_rest_consumes_everything() {
    let mut u = ByteCursor::new(vec![1, 2, 3]);
    assert_eq!(arbitrary_take_rest_vec::<u8>(&mut u), vec![1, 2, 3]);
    assert_eq!(u.remaining_len(), 0);

    // An odd tail is zero-filled by the final element.
    let mut u = ByteCursor::new(vec![1, 2, 3]);
    assert_eq!(arbitrary_take_rest_vec::<u16>(&mut u), vec![0x0201, 0x0003]);
    assert_eq!(u.remaining_len(), 0);
}

#[test]
fn collection_shrink_offers_prefixes_then_shrunk_heads() {
    let original = vec![4u8, 6];
    let out = shrink_vec(&original);
    assert_eq!(out, vec![vec![], vec![4], vec![0, 6], vec![2, 6], vec![1, 6]]);
    assert!(!out.contains(&original));

    assert_eq!(shrink_vec(&vec![1u8]), vec![vec![], vec![0]]);
    assert_eq!(shrink_vec(&Vec::<u8>::new()), Vec::<Vec<u8>>::new());
}

#[test]
fn size_hints_compose() {
    assert_eq!(u8::size_hint(0), (1, Some(1)));
    assert_eq!(u64::size_hint(0), (8, Some(8)));
    assert_eq!(<(u8, bool)>::size_hint(0), (2, Some(2)));
    assert_eq!(Option::<u64>::size_hint(0), (1, Some(9)));
    assert_eq!(arbitrary::examples::MyEnum::size_hint(0), (4, Some(17)));

    assert_eq!(vec_size_hint(0), (0, None));

    assert_eq!(hint::and((1, None), (2, Some(3))), (3, None));
    assert_eq!(hint::or((0, Some(0)), (8, Some(8))), (0, Some(8)));
    assert_eq!(hint::and((1, Some(2)), (4, Some(13))), (5, Some(15)));
}

#[test]
fn recursive_chain_decodes_until_exhausted() {
    // flag 1, payload 5, flag 1, payload 6, flag 0.
    let mut u = ByteCursor::new(vec![1, 5, 1, 6, 0]);
    let c = Chain::arbitrary(&mut u).unwrap();
    assert_eq!(c.to_bytes(), vec![5, 6]);
    assert_eq!(u.remaining_len(), 0);

    let mut u = ByteCursor::new(vec![]);
    let c = Chain::arbitrary(&mut u).unwrap();
    assert!(matches!(c, Chain::End));

    // An adversarial all-ones buffer still terminates: links alternate
    // flag and payload bytes until the buffer runs out.
    let mut u = ByteCursor::new(vec![1; 100]);
    let c = Chain::arbitrary(&mut u).unwrap();
    assert_eq!(c.to_bytes(), vec![1; 50]);
    assert_eq!(u.remaining_len(), 0);
}

#[test]
fn recursive_chain_shrinks_toward_the_simplest_variant() {
    let link = Chain::Link(9, Box::new(Chain::End));
    let out = link.shrink();
    assert_eq!(out.len(), 1);
    assert!(matches!(out[0], Chain::End));

    assert_eq!(Chain::End.shrink().len(), 0);
}

#[test]
fn recursive_size_hint_is_cut_off_by_the_guard() {
    // Each unguarded level adds a flag byte and a payload byte.
    assert_eq!(Chain::size_hint(0), (1, Some(40)));
    assert_eq!(Chain::size_hint(hint::MAX_DEPTH - 1), (1, Some(2)));
    assert_eq!(Chain::size_hint(hint::MAX_DEPTH), (0, Some(0)));
}

#[test]
fn recursion_guard_cuts_off() {
    assert!(!hint::guard_exceeded(0));
    assert!(!hint::guard_exceeded(hint::MAX_DEPTH - 1));
    assert!(hint::guard_exceeded(hint::MAX_DEPTH));
    assert!(hint::guard_exceeded(hint::MAX_DEPTH + 1));
}
