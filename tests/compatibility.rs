use versioned_codec::test_structs;
use versioned_codec::version_1;
use versioned_codec::version_2_a;
use versioned_codec::version_2_b;

#[test]
fn self_compatibility() {
    let (version_1_struct, version_2_a_struct, version_2_b_struct) = test_structs();
    assert_eq!(version_1_struct, version_1::Struct::decode(&mut (&*version_1_struct.encode())).unwrap());
    assert_eq!(version_2_a_struct, version_2_a::Struct::decode(&mut (&*version_2_a_struct.encode())).unwrap());
    assert_eq!(version_2_b_struct, version_2_b::Struct::decode(&mut (&*version_2_b_struct.encode())).unwrap());
}

#[test]
fn backwards_compatibility() {
    let (version_1_struct, version_2_a_struct, version_2_b_struct) = test_structs();
    assert_eq!(version_2_a_struct, version_2_a::Struct::decode(&mut (&*version_1_struct.encode())).unwrap());
    assert_eq!(version_2_b_struct, version_2_b::Struct::decode(&mut (&*version_1_struct.encode())).unwrap());
}

#[test]
fn forwards_compatibility() {
    let (version_1_struct, version_2_a_struct, version_2_b_struct) = test_structs();
    assert_eq!(version_1_struct, version_1::Struct::decode(&mut (&*version_2_a_struct.encode())).unwrap());
    assert_eq!(version_1_struct, version_1::Struct::decode(&mut (&*version_2_b_struct.encode())).unwrap());
}

#[test]
fn reencoding() {
    let (_, version_2_a_struct, version_2_b_struct) = test_structs();

    let v2_a_to_v1 = version_1::Struct::decode(&mut (&*version_2_a_struct.encode())).unwrap();
    assert_eq!(version_2_a_struct, version_2_a::Struct::decode(&mut (&*v2_a_to_v1.encode())).unwrap());

    let v2_b_to_v1 = version_1::Struct::decode(&mut (&*version_2_b_struct.encode())).unwrap();
    assert_eq!(version_2_b_struct, version_2_b::Struct::decode(&mut (&*v2_b_to_v1.encode())).unwrap());
}
