use arbitrary::cursor::ByteCursor;
use arbitrary::examples::{MyEnum, MyTupleStruct, Rgb};
use arbitrary::traits::Arbitrary;

fn arbitrary_from<T: Arbitrary>(input: &[u8]) -> T {
    assert!(!input.is_empty());
    let mut u = ByteCursor::new(input.to_vec());
    T::arbitrary(&mut u).expect("can create arbitrary instance OK")
}

#[test]
fn struct_with_named_fields() {
    let rgb: Rgb = arbitrary_from(&[4, 5, 6]);
    assert_eq!(rgb.r, 4);
    assert_eq!(rgb.g, 5);
    assert_eq!(rgb.b, 6);

    assert_eq!(
        rgb.shrink(),
        vec![
            Rgb { r: 0, g: 0, b: 0 },
            Rgb { r: 2, g: 2, b: 3 },
            Rgb { r: 1, g: 1, b: 1 }
        ]
    );
}

#[test]
fn tuple_struct() {
    let s: MyTupleStruct = arbitrary_from(&[43, 42]);
    assert_eq!(s.0, 43);
    assert_eq!(s.1, false);

    let s: MyTupleStruct = arbitrary_from(&[42, 43]);
    assert_eq!(s.0, 42);
    assert_eq!(s.1, true);

    let shrunk_a = 42u8.shrink();
    let shrunk_b = true.shrink();
    let shrunk_s = s.shrink();
    let n = shrunk_a.len().min(shrunk_b.len()).min(shrunk_s.len());
    for i in 0..n {
        assert_eq!(shrunk_a[i], shrunk_s[i].0);
        assert_eq!(shrunk_b[i], shrunk_s[i].1);
    }
}

#[test]
fn derive_enum() {
    let mut raw = vec![
        // The choice of which enum variant takes 4 bytes.
        1, 2, 3, 4,
        // And then we need up to 13 bytes for creating `MyEnum::Struct`, the
        // largest variant.
        1, 2, 3, 4, 5, 6, 7, 8, 9, 10, 11, 12, 13,
    ];

    let mut saw_unit = false;
    let mut saw_tuple = false;
    let mut saw_struct = false;

    for i in 0..=255 {
        // Choose different variants each iteration.
        for el in &mut raw[..4] {
            *el = i;
        }

        let e: MyEnum = arbitrary_from(&raw);

        match e {
            MyEnum::Unit => {
                saw_unit = true;
                assert_eq!(e.shrink().len(), 0);
            }
            MyEnum::Tuple(a, b) => {
                saw_tuple = true;
                assert_eq!(a, arbitrary_from::<u8>(&raw[4..5]));
                assert_eq!(b, arbitrary_from::<u16>(&raw[5..]));

                let shrunk_a = a.shrink();
                let shrunk_b = b.shrink();
                let shrunk_e = e.shrink();
                let n = shrunk_a.len().min(shrunk_b.len()).min(shrunk_e.len());
                for k in 0..n {
                    match shrunk_e[k] {
                        MyEnum::Tuple(c, d) => {
                            assert_eq!(shrunk_a[k], c);
                            assert_eq!(shrunk_b[k], d);
                        }
                        _ => panic!("should never shrink to a different variant"),
                    }
                }
            }
            MyEnum::Struct { a, b } => {
                saw_struct = true;
                assert_eq!(a, arbitrary_from::<u32>(&raw[4..8]));
                assert_eq!(b, arbitrary_from::<(bool, u64)>(&raw[8..]));

                let shrunk_a = a.shrink();
                let shrunk_b = b.shrink();
                let shrunk_e = e.shrink();
                let n = shrunk_a.len().min(shrunk_b.len()).min(shrunk_e.len());
                for k in 0..n {
                    match shrunk_e[k] {
                        MyEnum::Struct { a: c, b: d } => {
                            assert_eq!(shrunk_a[k], c);
                            assert_eq!(shrunk_b[k], d);
                        }
                        _ => panic!("should never shrink to a different variant"),
                    }
                }
            }
        }
    }

    assert!(saw_unit);
    assert!(saw_tuple);
    assert!(saw_struct);
}
