//! A binary record codec that tolerates version skew between writers and
//! readers. Records are laid out with the SCALE primitive codec; evolvable
//! fields are carried as explicit optionals, so that a reader of another
//! version can still find every field boundary.

pub mod error;
pub mod scale;
pub mod compare;
pub mod version_1;
pub mod version_2_a;
pub mod version_2_b;
pub mod record;
pub mod compat;

use vstd::prelude::*;

verus! {

/// One record of each shape with the same data: version 1 carrying both
/// fields, and version 2 carrying only the byte array or only the names.
pub fn test_structs() -> (r: (version_1::Struct, version_2_a::Struct, version_2_b::Struct))
    ensures
        r.0@ == (version_1::StructView {
            version: 1,
            bytes: Some(seq![55u8, 55, 55, 55]),
            names: Some(seq!["hello"@, "world"@]),
        }),
        r.1@ == (version_2_a::StructView { version: 2, bytes: seq![55u8, 55, 55, 55] }),
        r.2@ == (version_2_b::StructView { version: 2, names: seq!["hello"@, "world"@] }),
{
    let version_1_struct = version_1::Struct {
        version: 1,
        bytes: Some([55u8, 55, 55, 55]),
        names: Some(vec!["hello".to_owned(), "world".to_owned()]),
    };
    let version_2_a_struct = version_2_a::Struct { version: 2, bytes: [55u8, 55, 55, 55] };
    let version_2_b_struct = version_2_b::Struct {
        version: 2,
        names: vec!["hello".to_owned(), "world".to_owned()],
    };
    assert(version_1_struct@.bytes == Some(seq![55u8, 55, 55, 55]));
    assert(version_1_struct@.names == Some(seq!["hello"@, "world"@]));
    assert(version_2_a_struct@.bytes == seq![55u8, 55, 55, 55]);
    assert(version_2_b_struct@.names == seq!["hello"@, "world"@]);
    (version_1_struct, version_2_a_struct, version_2_b_struct)
}

} // verus!
