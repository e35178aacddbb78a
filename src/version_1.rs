//! The first shape of the record: both evolvable fields are optional, and
//! an absent field is written as an explicit "nothing".

use vstd::prelude::*;
use crate::compare::{same_bytes, same_names};
use crate::error::DecodeError;
use crate::record::Record;
use crate::scale::{
    decode_opt_bytes, decode_opt_names, decode_u8, encode_opt_bytes, encode_opt_names, encode_u8,
    lemma_after_byte, lemma_opt_bytes_layout, lemma_opt_names_layout, opt_bytes_layout,
    opt_bytes_view, opt_names_encodable, opt_names_layout, opt_names_view,
};

verus! {

#[derive(Debug, Clone)]
pub struct Struct {
    pub version: u8,
    pub bytes: Option<[u8; 4]>,
    pub names: Option<Vec<String>>,
}

/// What a record of this shape holds, as mathematical values.
pub ghost struct StructView {
    pub version: u8,
    pub bytes: Option<Seq<u8>>,
    pub names: Option<Seq<Seq<char>>>,
}

impl View for Struct {
    type V = StructView;

    open spec fn view(&self) -> StructView {
        StructView {
            version: self.version,
            bytes: opt_bytes_view(self.bytes),
            names: opt_names_view(self.names),
        }
    }
}

impl StructView {
    /// The bytes a record of this shape is written as: the version tag, then
    /// each evolvable field as an explicit optional.
    pub open spec fn layout(self) -> Seq<u8> {
        seq![self.version] + opt_bytes_layout(self.bytes) + opt_names_layout(self.names)
    }

    /// The record holds a value of each field's type, and its lengths fit
    /// the codec.
    pub open spec fn valid(self) -> bool {
        &&& self.bytes matches Some(b) ==> b.len() == 4
        &&& opt_names_encodable(self.names)
    }

    /// Equality over the fields that both records carry: a field absent from
    /// either side is not compared.
    pub open spec fn partial_eq(self, other: StructView) -> bool {
        &&& self.bytes is Some && other.bytes is Some ==> self.bytes == other.bytes
        &&& self.names is Some && other.names is Some ==> self.names == other.names
    }
}

/// Decoding a record of this shape from `input` reads `x` and leaves `rest`.
pub open spec fn decodes_to(input: Seq<u8>, x: StructView, rest: Seq<u8>) -> bool {
    x.valid() && input == x.layout() + rest
}

/// Facts about the input that a valid layout followed by `rest` gives.
proof fn lemma_layout_parts(x: StructView, rest: Seq<u8>)
    requires
        x.valid(),
    ensures
        ({
            let s = x.layout() + rest;
            &&& s.len() >= 1
            &&& s[0] == x.version
            &&& s.skip(1) == opt_bytes_layout(x.bytes) + (opt_names_layout(x.names) + rest)
        }),
{
    let tail = opt_bytes_layout(x.bytes) + (opt_names_layout(x.names) + rest);
    assert(x.layout() + rest =~= seq![x.version] + tail);
    lemma_after_byte(x.version, tail);
}

impl Struct {
    /// Appends the record's layout to `dest`.
    pub fn encode_to(&self, dest: &mut Vec<u8>)
        requires
            self@.valid(),
        ensures
            final(dest)@ == old(dest)@ + self@.layout(),
    {
        encode_u8(self.version, dest);
        encode_opt_bytes(&self.bytes, dest);
        encode_opt_names(self.names.as_ref(), dest);
        assert(final(dest)@ =~= old(dest)@ + self@.layout());
    }

    /// The record's layout.
    pub fn encode(&self) -> (r: Vec<u8>)
        requires
            self@.valid(),
        ensures
            r@ == self@.layout(),
    {
        let mut r: Vec<u8> = Vec::new();
        self.encode_to(&mut r);
        assert(r@ =~= self@.layout());
        r
    }

    /// Reads a record of this shape from the front of `input` and advances
    /// `input` past it. It succeeds exactly when the input starts with the
    /// layout of a valid record, and then gives that record.
    pub fn decode(input: &mut &[u8]) -> (r: Result<Struct, DecodeError>)
        ensures
            r matches Ok(x) ==> decodes_to(old(input)@, x@, final(input)@),
            r matches Err(e) ==> e is Codec,
            forall|x: StructView, rest: Seq<u8>|
                #![trigger decodes_to(old(input)@, x, rest)]
                decodes_to(old(input)@, x, rest) ==> (r matches Ok(y) && y@ == x && final(input)@ == rest),
    {
        let ghost s0 = input@;
        assert forall|x: StructView, rest: Seq<u8>| decodes_to(s0, x, rest) implies s0.len() >= 1 && s0[0]
            == x.version && s0.skip(1) == opt_bytes_layout(x.bytes) + (opt_names_layout(x.names) + rest) by {
            lemma_layout_parts(x, rest);
        }
        let version = match decode_u8(input) {
            Ok(v) => v,
            Err(e) => {
                return Err(DecodeError::Codec(e));
            },
        };
        let ghost s1 = input@;
        assert forall|x: StructView, rest: Seq<u8>| decodes_to(s0, x, rest) implies
            x.version == version && s1.len() >= 1 && (s1[0] == 0) == (x.bytes is None) && (x.bytes is None ==> s1.skip(1)
            == opt_names_layout(x.names) + rest) && (x.bytes matches Some(b) ==> s1.len() >= 5 && s1[0] == 1
            && s1.subrange(1, 5) == b && s1.skip(5) == opt_names_layout(x.names) + rest) by {
            lemma_opt_bytes_layout(x.bytes, opt_names_layout(x.names) + rest);
        }
        let bytes = match decode_opt_bytes(input) {
            Ok(b) => b,
            Err(e) => {
                return Err(DecodeError::Codec(e));
            },
        };
        let ghost s2 = input@;
        assert forall|x: StructView, rest: Seq<u8>| decodes_to(s0, x, rest) implies x.version == version
            && x.bytes == opt_bytes_view(bytes) && s2 == opt_names_layout(x.names) + rest by {
            lemma_opt_bytes_layout(x.bytes, opt_names_layout(x.names) + rest);
        }
        assert forall|x: StructView, rest: Seq<u8>| decodes_to(s0, x, rest) implies x.version == version
            && x.bytes == opt_bytes_view(bytes) && s2.len() >= 1 && (s2[0] == 0) == (x.names is None)
            && (x.names is None ==> s2.skip(1) == rest) && (x.names matches Some(n) ==> s2[0] == 1
            && s2.skip(1) == crate::scale::names_encoding(n) + rest && crate::scale::names_encodable(n)) by {
            lemma_opt_names_layout(x.names, rest);
        }
        let names = match decode_opt_names(input) {
            Ok(n) => n,
            Err(e) => {
                return Err(DecodeError::Codec(e));
            },
        };
        let r = Struct { version, bytes, names };
        proof {
            match bytes {
                None => {
                    assert(s1 =~= opt_bytes_layout(r@.bytes) + s2);
                },
                Some(b) => {
                    assert(s1 =~= opt_bytes_layout(r@.bytes) + s2);
                },
            }
            assert(s0 =~= seq![version] + s1);
            if r.names is None {
                assert(s2 =~= opt_names_layout(r@.names) + input@);
            } else {
                assert(s2.len() >= 1 && s2[0] == 1);
                assert(s2 =~= seq![1u8] + s2.skip(1));
                assert(s2 =~= opt_names_layout(r@.names) + input@);
            }
            assert(s0 =~= r@.layout() + input@);
        }
        Ok(r)
    }

    /// Partial equality: compares a field only where both records carry it.
    pub fn partial_eq(&self, other: &Struct) -> (r: bool)
        ensures
            r == self@.partial_eq(other@),
    {
        let mut eq = true;
        if let (Some(a), Some(b)) = (&self.bytes, &other.bytes) {
            eq = eq && same_bytes(a, b);
        }
        if let (Some(a), Some(b)) = (&self.names, &other.names) {
            eq = eq && same_names(a, b);
        }
        eq
    }
}

impl Record for Struct {
    open spec fn valid(v: StructView) -> bool {
        v.valid()
    }

    open spec fn layout(v: StructView) -> Seq<u8> {
        v.layout()
    }

    open spec fn decodes_to(input: Seq<u8>, v: StructView, rest: Seq<u8>) -> bool {
        decodes_to(input, v, rest)
    }

    fn encode_to(&self, dest: &mut Vec<u8>) {
        Struct::encode_to(self, dest)
    }

    fn decode(input: &mut &[u8]) -> (r: Result<Struct, DecodeError>) {
        Struct::decode(input)
    }
}

impl PartialEq for Struct {
    fn eq(&self, other: &Struct) -> (r: bool) {
        self.partial_eq(other)
    }
}

impl vstd::std_specs::cmp::PartialEqSpecImpl for Struct {
    open spec fn obeys_eq_spec() -> bool {
        true
    }

    open spec fn eq_spec(&self, other: &Struct) -> bool {
        self@.partial_eq(other@)
    }
}

} // verus!
