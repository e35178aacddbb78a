//! A later shape of the record that keeps only the byte array, now
//! required. It still writes the list of names as absent, so that readers of
//! the first shape find every field, and it reads the first shape's layout,
//! failing when the byte array was written as absent.

use vstd::prelude::*;
use crate::compare::same_bytes;
use crate::error::DecodeError;
use crate::record::Record;
use crate::scale::{encode_opt_bytes, encode_opt_names, encode_u8, opt_bytes_layout, opt_names_layout};
use crate::version_1;

verus! {

#[derive(Debug, Clone)]
pub struct Struct {
    pub version: u8,
    pub bytes: [u8; 4],
}

/// What a record of this shape holds, as mathematical values.
pub ghost struct StructView {
    pub version: u8,
    pub bytes: Seq<u8>,
}

impl View for Struct {
    type V = StructView;

    open spec fn view(&self) -> StructView {
        StructView { version: self.version, bytes: self.bytes@ }
    }
}

impl StructView {
    /// The bytes a record of this shape is written as: the version tag, the
    /// byte array as a present optional, and the names as an absent one.
    pub open spec fn layout(self) -> Seq<u8> {
        seq![self.version] + opt_bytes_layout(Some(self.bytes)) + opt_names_layout(None)
    }

    pub open spec fn valid(self) -> bool {
        self.bytes.len() == 4
    }

    /// The record of the first shape that holds the same fields.
    pub open spec fn to_v1(self) -> version_1::StructView {
        version_1::StructView { version: self.version, bytes: Some(self.bytes), names: None }
    }

    /// Partial equality: the byte arrays agree. The version tag is not
    /// compared.
    pub open spec fn partial_eq(self, other: StructView) -> bool {
        self.bytes == other.bytes
    }
}

/// The record of this shape read from a record of the first shape that
/// carries its byte array.
pub open spec fn from_v1(x: version_1::StructView) -> StructView {
    StructView { version: x.version, bytes: x.bytes.unwrap() }
}

/// Decoding a record of this shape from `input` reads `y` and leaves `rest`:
/// the input starts with the layout of a first-shape record whose byte array
/// is present.
pub open spec fn decodes_to(input: Seq<u8>, y: StructView, rest: Seq<u8>) -> bool {
    exists|x: version_1::StructView|
        #![trigger version_1::decodes_to(input, x, rest)]
        version_1::decodes_to(input, x, rest) && x.bytes is Some && from_v1(x) == y
}

impl Struct {
    /// Appends the record's layout to `dest`.
    pub fn encode_to(&self, dest: &mut Vec<u8>)
        ensures
            final(dest)@ == old(dest)@ + self@.layout(),
    {
        encode_u8(self.version, dest);
        encode_opt_bytes(&Some(self.bytes), dest);
        encode_opt_names(None, dest);
        assert(final(dest)@ =~= old(dest)@ + self@.layout());
    }

    /// The record's layout.
    pub fn encode(&self) -> (r: Vec<u8>)
        ensures
            r@ == self@.layout(),
    {
        let mut r: Vec<u8> = Vec::new();
        self.encode_to(&mut r);
        assert(r@ =~= self@.layout());
        r
    }

    /// Reads a record of this shape from the front of `input` and advances
    /// `input` past it. The input must hold a first-shape layout; its byte
    /// array must be present, and its names are read past and dropped.
    pub fn decode(input: &mut &[u8]) -> (r: Result<Struct, DecodeError>)
        ensures
            r matches Ok(y) ==> decodes_to(old(input)@, y@, final(input)@),
            r matches Err(DecodeError::Codec(_)) ==> forall|x: version_1::StructView, rest: Seq<u8>|
                !version_1::decodes_to(old(input)@, x, rest),
            forall|x: version_1::StructView, rest: Seq<u8>|
                #![trigger version_1::decodes_to(old(input)@, x, rest)]
                version_1::decodes_to(old(input)@, x, rest) ==> {
                    &&& x.bytes is Some ==> (r matches Ok(y) && y@ == from_v1(x) && final(input)@ == rest)
                    &&& x.bytes is None ==> (r matches Err(e) && e is UnexpectedAbsence)
                },
            forall|y: StructView, rest: Seq<u8>|
                #![trigger decodes_to(old(input)@, y, rest)]
                decodes_to(old(input)@, y, rest) ==> (r matches Ok(z) && z@ == y && final(input)@ == rest),
    {
        let x = match version_1::Struct::decode(input) {
            Ok(x) => x,
            Err(e) => {
                return Err(e);
            },
        };
        match x.bytes {
            Some(bytes) => {
                let r = Struct { version: x.version, bytes };
                assert(version_1::decodes_to(old(input)@, x@, input@));
                Ok(r)
            },
            None => Err(DecodeError::UnexpectedAbsence),
        }
    }

    /// Partial equality: compares the byte arrays.
    pub fn partial_eq(&self, other: &Struct) -> (r: bool)
        ensures
            r == self@.partial_eq(other@),
    {
        same_bytes(&self.bytes, &other.bytes)
    }
}

impl Record for Struct {
    open spec fn valid(v: StructView) -> bool {
        v.valid()
    }

    open spec fn layout(v: StructView) -> Seq<u8> {
        v.layout()
    }

    open spec fn decodes_to(input: Seq<u8>, v: StructView, rest: Seq<u8>) -> bool {
        decodes_to(input, v, rest)
    }

    fn encode_to(&self, dest: &mut Vec<u8>) {
        Struct::encode_to(self, dest)
    }

    fn decode(input: &mut &[u8]) -> (r: Result<Struct, DecodeError>) {
        Struct::decode(input)
    }
}

impl PartialEq for Struct {
    fn eq(&self, other: &Struct) -> (r: bool) {
        self.partial_eq(other)
    }
}

impl vstd::std_specs::cmp::PartialEqSpecImpl for Struct {
    open spec fn obeys_eq_spec() -> bool {
        true
    }

    open spec fn eq_spec(&self, other: &Struct) -> bool {
        self@.partial_eq(other@)
    }
}

} // verus!
