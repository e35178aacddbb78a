use versioned_codec::error::DecodeError;
use versioned_codec::record::{decode_all, encode_all};
use versioned_codec::test_structs;
use versioned_codec::version_1;
use versioned_codec::version_2_a;
use versioned_codec::version_2_b;

fn names() -> Vec<String> {
    vec!["hello".to_string(), "world".to_string()]
}

fn names_bytes() -> Vec<u8> {
    let mut b = vec![8u8, 20];
    b.extend_from_slice(b"hello");
    b.push(20);
    b.extend_from_slice(b"world");
    b
}

#[test]
fn version_1_layout_bytes() {
    let (v1, _, _) = test_structs();
    let mut expected = vec![1u8, 1, 55, 55, 55, 55, 1];
    expected.extend(names_bytes());
    assert_eq!(v1.encode(), expected);
}

#[test]
fn version_1_layout_with_absent_fields() {
    let x = version_1::Struct { version: 7, bytes: None, names: None };
    assert_eq!(x.encode(), vec![7u8, 0, 0]);
}

#[test]
fn version_2_a_layout_bytes() {
    let (_, v2a, _) = test_structs();
    assert_eq!(v2a.encode(), vec![2u8, 1, 55, 55, 55, 55, 0]);
}

#[test]
fn version_2_b_layout_bytes() {
    let (_, _, v2b) = test_structs();
    let mut expected = vec![2u8, 0, 1];
    expected.extend(names_bytes());
    assert_eq!(v2b.encode(), expected);
}

#[test]
fn encode_to_appends() {
    let (_, v2a, _) = test_structs();
    let mut dest = vec![9u8];
    v2a.encode_to(&mut dest);
    assert_eq!(dest, vec![9u8, 2, 1, 55, 55, 55, 55, 0]);
}

#[test]
fn decode_leaves_what_follows() {
    let (v1, _, _) = test_structs();
    let mut bytes = v1.encode();
    bytes.extend_from_slice(&[42, 43]);
    let mut input: &[u8] = &bytes;
    let back = version_1::Struct::decode(&mut input).unwrap();
    assert_eq!(back.version, 1);
    assert_eq!(back.bytes, Some([55u8; 4]));
    assert_eq!(back.names, Some(names()));
    assert_eq!(input, &[42u8, 43][..]);
}

#[test]
fn version_2_a_consumes_the_whole_record() {
    let (v1, _, _) = test_structs();
    let bytes = v1.encode();
    let mut input: &[u8] = &bytes;
    let y = version_2_a::Struct::decode(&mut input).unwrap();
    assert_eq!(y.version, 1);
    assert_eq!(y.bytes, [55u8; 4]);
    assert!(input.is_empty());
}

#[test]
fn version_2_b_keeps_the_version_tag_read() {
    let (v1, _, _) = test_structs();
    let y = version_2_b::Struct::decode(&mut (&*v1.encode())).unwrap();
    assert_eq!(y.version, 1);
    assert_eq!(y.names, names());
}

#[test]
fn forward_read_fills_absent_fields() {
    let (_, v2a, v2b) = test_structs();
    let x = version_1::Struct::decode(&mut (&*v2a.encode())).unwrap();
    assert_eq!(x.version, 2);
    assert_eq!(x.bytes, Some([55u8; 4]));
    assert_eq!(x.names, None);
    let x = version_1::Struct::decode(&mut (&*v2b.encode())).unwrap();
    assert_eq!(x.bytes, None);
    assert_eq!(x.names, Some(names()));
}

#[test]
fn concrete_scenario_through_version_2() {
    let first = version_1::Struct { version: 1, bytes: Some([55; 4]), names: Some(names()) };
    let only_bytes = version_2_a::Struct::decode(&mut (&*first.encode())).unwrap();
    assert_eq!(only_bytes, version_2_a::Struct { version: 2, bytes: [55; 4] });
    let only_names = version_2_b::Struct::decode(&mut (&*first.encode())).unwrap();
    assert_eq!(only_names, version_2_b::Struct { version: 2, names: names() });
    let back_a = version_1::Struct::decode(&mut (&*only_bytes.encode())).unwrap();
    assert_eq!(back_a, first);
    assert_eq!(back_a.names, None);
    let back_b = version_1::Struct::decode(&mut (&*only_names.encode())).unwrap();
    assert_eq!(back_b, first);
    assert_eq!(back_b.bytes, None);
}

#[test]
fn absent_bytes_for_version_2_a() {
    let x = version_1::Struct { version: 1, bytes: None, names: Some(names()) };
    let r = version_2_a::Struct::decode(&mut (&*x.encode()));
    assert!(matches!(r, Err(DecodeError::UnexpectedAbsence)));
}

#[test]
fn absent_names_for_version_2_b() {
    let x = version_1::Struct { version: 1, bytes: Some([1, 2, 3, 4]), names: None };
    let r = version_2_b::Struct::decode(&mut (&*x.encode()));
    assert!(matches!(r, Err(DecodeError::UnexpectedAbsence)));
}

#[test]
fn empty_input_is_a_codec_error() {
    let mut input: &[u8] = &[];
    assert!(matches!(version_1::Struct::decode(&mut input), Err(DecodeError::Codec(_))));
    let mut input: &[u8] = &[];
    assert!(matches!(version_2_a::Struct::decode(&mut input), Err(DecodeError::Codec(_))));
}

#[test]
fn bad_option_tag_is_a_codec_error() {
    let mut input: &[u8] = &[1, 2];
    assert!(matches!(version_1::Struct::decode(&mut input), Err(DecodeError::Codec(_))));
    let mut input: &[u8] = &[1, 0, 5];
    assert!(matches!(version_1::Struct::decode(&mut input), Err(DecodeError::Codec(_))));
}

#[test]
fn truncated_input_is_a_codec_error() {
    let (v1, _, _) = test_structs();
    let bytes = v1.encode();
    for cut in 0..bytes.len() {
        let mut input: &[u8] = &bytes[..cut];
        assert!(matches!(version_1::Struct::decode(&mut input), Err(DecodeError::Codec(_))));
    }
}

#[test]
fn malformed_names_fail_version_2_a_too() {
    let mut input: &[u8] = &[1, 1, 9, 9, 9, 9, 1, 4, 8, 0xff, 0xfe];
    assert!(matches!(version_2_a::Struct::decode(&mut input), Err(DecodeError::Codec(_))));
}

#[test]
fn invalid_utf8_is_a_codec_error() {
    let mut input: &[u8] = &[1, 0, 1, 4, 8, 0xff, 0xfe];
    assert!(matches!(version_1::Struct::decode(&mut input), Err(DecodeError::Codec(_))));
}

#[test]
fn partial_equality_skips_absent_fields() {
    let a = version_1::Struct { version: 1, bytes: Some([1, 2, 3, 4]), names: None };
    let b = version_1::Struct { version: 9, bytes: Some([1, 2, 3, 4]), names: Some(names()) };
    let c = version_1::Struct { version: 1, bytes: None, names: Some(vec!["x".to_string()]) };
    assert!(a.partial_eq(&b));
    assert!(b.partial_eq(&a));
    assert!(a.partial_eq(&c));
    assert!(!b.partial_eq(&c));
    assert!(!c.partial_eq(&b));
    assert!(a.partial_eq(&a));
    let d = version_1::Struct { version: 1, bytes: Some([1, 2, 3, 5]), names: None };
    assert!(!a.partial_eq(&d));
}

#[test]
fn partial_equality_is_not_transitive() {
    let a = version_1::Struct { version: 1, bytes: Some([1, 1, 1, 1]), names: None };
    let b = version_1::Struct { version: 1, bytes: None, names: None };
    let c = version_1::Struct { version: 1, bytes: Some([2, 2, 2, 2]), names: None };
    assert!(a == b);
    assert!(b == c);
    assert!(a != c);
}

#[test]
fn version_2_equality_ignores_the_tag() {
    let a = version_2_a::Struct { version: 1, bytes: [3; 4] };
    let b = version_2_a::Struct { version: 2, bytes: [3; 4] };
    assert!(a.partial_eq(&b));
    let c = version_2_b::Struct { version: 1, names: names() };
    let d = version_2_b::Struct { version: 2, names: vec!["hello".to_string()] };
    assert!(!c.partial_eq(&d));
}

#[test]
fn older_records_read_as_newer_array() {
    let xs = [
        version_1::Struct { version: 1, bytes: Some([1; 4]), names: Some(names()) },
        version_1::Struct { version: 1, bytes: Some([2; 4]), names: None },
        version_1::Struct { version: 3, bytes: Some([3; 4]), names: Some(vec![]) },
    ];
    let bytes = encode_all(&xs);
    let mut input: &[u8] = &bytes;
    let ys: Vec<version_2_a::Struct> = decode_all(&mut input, 3).unwrap();
    assert_eq!(ys.len(), 3);
    assert_eq!(ys[0].bytes, [1; 4]);
    assert_eq!(ys[1].bytes, [2; 4]);
    assert_eq!(ys[2].bytes, [3; 4]);
    assert_eq!(ys[2].version, 3);
    assert!(input.is_empty());

    let mut input: &[u8] = &bytes;
    let zs: Vec<version_2_b::Struct> = decode_all(&mut input, 1).unwrap();
    assert_eq!(zs[0].names, names());
    let mut input: &[u8] = &bytes;
    let r: Result<Vec<version_2_b::Struct>, DecodeError> = decode_all(&mut input, 2);
    assert!(matches!(r, Err(DecodeError::UnexpectedAbsence)));
}

#[test]
fn newer_records_read_as_older_array() {
    let ys = [
        version_2_a::Struct { version: 2, bytes: [7; 4] },
        version_2_a::Struct { version: 2, bytes: [8; 4] },
    ];
    let bytes = encode_all(&ys);
    assert_eq!(bytes.len(), 14);
    let mut input: &[u8] = &bytes;
    let xs: Vec<version_1::Struct> = decode_all(&mut input, 2).unwrap();
    assert_eq!(xs[0].bytes, Some([7; 4]));
    assert_eq!(xs[1].bytes, Some([8; 4]));
    assert_eq!(xs[1].names, None);

    let zs = [version_2_b::Struct { version: 2, names: names() }];
    let bytes = encode_all(&zs);
    let mut input: &[u8] = &bytes;
    let xs: Vec<version_1::Struct> = decode_all(&mut input, 1).unwrap();
    assert_eq!(xs[0].names, Some(names()));
    assert_eq!(xs[0].bytes, None);
}

#[test]
fn too_few_records_fail() {
    let ys = [version_2_a::Struct { version: 2, bytes: [7; 4] }];
    let bytes = encode_all(&ys);
    let mut input: &[u8] = &bytes;
    let r: Result<Vec<version_1::Struct>, DecodeError> = decode_all(&mut input, 2);
    assert!(matches!(r, Err(DecodeError::Codec(_))));
    let mut input: &[u8] = &bytes;
    let r: Result<Vec<version_1::Struct>, DecodeError> = decode_all(&mut input, 0);
    assert!(r.unwrap().is_empty());
    assert_eq!(input.len(), 7);
}
