//! The primitive codec: the fields of a record, written and read with SCALE.

use vstd::prelude::*;
use parity_scale_codec::{Decode, Encode};

verus! {

#[verifier::external_type_specification]
#[verifier::external_body]
pub struct ExCodecError(parity_scale_codec::Error);

/// The SCALE encoding of a sequence of strings: a compact length, then each
/// string as a compact byte length followed by its UTF-8 bytes.
pub uninterp spec fn names_encoding(names: Seq<Seq<char>>) -> Seq<u8>;

/// The characters of each string.
pub open spec fn names_view(v: Seq<String>) -> Seq<Seq<char>> {
    v.map_values(|s: String| s@)
}

/// SCALE writes lengths as 32-bit compact integers: a sequence of strings can
/// be written when it has at most `u32::MAX` items of at most `u32::MAX`
/// bytes each.
pub open spec fn names_encodable(names: Seq<Seq<char>>) -> bool {
    &&& names.len() <= u32::MAX
    &&& forall|i: int| 0 <= i < names.len() ==> vstd::utf8::encode_utf8(#[trigger] names[i]).len() <= u32::MAX
}

/// An optional field on the wire: a tag byte, 0 for absent, 1 for present,
/// then the payload when present.
pub open spec fn option_layout(o: Option<Seq<u8>>) -> Seq<u8> {
    match o {
        None => seq![0u8],
        Some(p) => seq![1u8] + p,
    }
}

pub open spec fn opt_bytes_layout(o: Option<Seq<u8>>) -> Seq<u8> {
    option_layout(o)
}

/// The bytes of an optional array.
pub open spec fn opt_bytes_view(o: Option<[u8; 4]>) -> Option<Seq<u8>> {
    match o {
        None => None,
        Some(b) => Some(b@),
    }
}

/// The strings of an optional vector.
pub open spec fn opt_names_view(o: Option<Vec<String>>) -> Option<Seq<Seq<char>>> {
    match o {
        None => None,
        Some(v) => Some(names_view(v@)),
    }
}

pub open spec fn opt_names_layout(o: Option<Seq<Seq<char>>>) -> Seq<u8> {
    match o {
        None => option_layout(None),
        Some(n) => option_layout(Some(names_encoding(n))),
    }
}

pub open spec fn opt_names_encodable(o: Option<Seq<Seq<char>>>) -> bool {
    match o {
        None => true,
        Some(n) => names_encodable(n),
    }
}

/// Relies on `<u8 as Encode>::encode_to`: a byte is written as itself.
#[verifier::external_body]
pub(crate) fn encode_u8(v: u8, dest: &mut Vec<u8>)
    ensures
        final(dest)@ == old(dest)@.push(v),
{
    v.encode_to(dest)
}

/// Relies on `<u8 as Decode>::decode` over a byte slice: it takes the first
/// byte, and fails on an empty input.
#[verifier::external_body]
pub(crate) fn decode_u8(input: &mut &[u8]) -> (r: Result<u8, parity_scale_codec::Error>)
    ensures
        old(input)@.len() == 0 <==> r is Err,
        old(input)@.len() > 0 ==> (r matches Ok(b) && b == old(input)@[0]) && final(input)@ == old(input)@.skip(1),
{
    u8::decode(input)
}

/// Relies on `<Option<[u8; 4]> as Encode>::encode_to`: a tag byte, then the
/// four bytes in order when present.
#[verifier::external_body]
pub(crate) fn encode_opt_bytes(o: &Option<[u8; 4]>, dest: &mut Vec<u8>)
    ensures
        final(dest)@ == old(dest)@ + opt_bytes_layout(opt_bytes_view(*o)),
{
    o.encode_to(dest)
}

/// Relies on `<Option<[u8; 4]> as Decode>::decode` over a byte slice: tag 0
/// reads as absent, tag 1 followed by four bytes as present; anything else
/// fails.
#[verifier::external_body]
pub(crate) fn decode_opt_bytes(input: &mut &[u8]) -> (r: Result<Option<[u8; 4]>, parity_scale_codec::Error>)
    ensures
        old(input)@.len() >= 1 && old(input)@[0] == 0 ==> (r matches Ok(None)) && final(input)@ == old(input)@.skip(1),
        old(input)@.len() >= 5 && old(input)@[0] == 1 ==> (r matches Ok(Some(b)) && b@ == old(input)@.subrange(1, 5))
            && final(input)@ == old(input)@.skip(5),
        !(old(input)@.len() >= 1 && old(input)@[0] == 0) && !(old(input)@.len() >= 5 && old(input)@[0] == 1) ==> r is Err,
{
    Option::<[u8; 4]>::decode(input)
}

/// Relies on `<Option<&Vec<String>> as Encode>::encode_to`: a tag byte, then
/// the SCALE encoding of the strings when present. Encoding panics on lengths
/// beyond 32 bits, which `requires` leaves out.
#[verifier::external_body]
pub(crate) fn encode_opt_names(o: Option<&Vec<String>>, dest: &mut Vec<u8>)
    requires
        o matches Some(v) ==> names_encodable(names_view(v@)),
    ensures
        final(dest)@ == old(dest)@ + opt_names_layout(
            match o {
                None => None,
                Some(v) => Some(names_view(v@)),
            },
        ),
{
    o.encode_to(dest)
}

/// Relies on `<Option<Vec<String>> as Decode>::decode` over a byte slice.
/// Tag 0 reads as absent. After tag 1, decoding inverts encoding: it reads
/// back exactly the strings whose encoding starts the rest of the input, and
/// what it reads is always such a prefix, since lengths must be minimal
/// compact integers and strings valid UTF-8. Any other tag fails.
#[verifier::external_body]
pub(crate) fn decode_opt_names(input: &mut &[u8]) -> (r: Result<Option<Vec<String>>, parity_scale_codec::Error>)
    ensures
        old(input)@.len() >= 1 && old(input)@[0] == 0 ==> (r matches Ok(None)) && final(input)@ == old(input)@.skip(1),
        !(old(input)@.len() >= 1 && (old(input)@[0] == 0 || old(input)@[0] == 1)) ==> r is Err,
        old(input)@.len() >= 1 && old(input)@[0] == 1 ==> (r matches Ok(Some(v)) ==> names_encodable(names_view(v@))
            && old(input)@.skip(1) == names_encoding(names_view(v@)) + final(input)@),
        old(input)@.len() >= 1 && old(input)@[0] == 1 ==> (r is Err || r matches Ok(Some(_))),
        forall|n: Seq<Seq<char>>, rest: Seq<u8>|
            #![trigger names_encoding(n) + rest]
            names_encodable(n) && old(input)@.len() >= 1 && old(input)@[0] == 1 && old(input)@.skip(1)
                == names_encoding(n) + rest ==> (r matches Ok(Some(v))
                && names_view(v@) == n && final(input)@ == rest),
{
    Option::<Vec<String>>::decode(input)
}

} // verus!

verus! {

/// How a field that follows a byte in the input can be found again.
pub(crate) proof fn lemma_after_byte(b: u8, tail: Seq<u8>)
    ensures
        (seq![b] + tail).len() >= 1,
        (seq![b] + tail)[0] == b,
        (seq![b] + tail).skip(1) == tail,
{
    assert((seq![b] + tail).skip(1) =~= tail);
}

/// Reading an optional array back from its layout.
pub(crate) proof fn lemma_opt_bytes_layout(o: Option<Seq<u8>>, tail: Seq<u8>)
    requires
        o matches Some(b) ==> b.len() == 4,
    ensures
        ({
            let s = opt_bytes_layout(o) + tail;
            &&& s.len() >= 1
            &&& (s[0] == 0) == (o is None)
            &&& o is None ==> s.skip(1) == tail
            &&& o matches Some(b) ==> s.len() >= 5 && s[0] == 1 && s.subrange(1, 5) == b && s.skip(5) == tail
        }),
{
    let s = opt_bytes_layout(o) + tail;
    match o {
        None => {
            assert(s.skip(1) =~= tail);
        },
        Some(b) => {
            assert(s.subrange(1, 5) =~= b);
            assert(s.skip(5) =~= tail);
        },
    }
}

/// Reading an optional list of strings back from its layout.
pub(crate) proof fn lemma_opt_names_layout(o: Option<Seq<Seq<char>>>, tail: Seq<u8>)
    ensures
        ({
            let s = opt_names_layout(o) + tail;
            &&& s.len() >= 1
            &&& (s[0] == 0) == (o is None)
            &&& o is None ==> s.skip(1) == tail
            &&& o matches Some(n) ==> s[0] == 1 && s.skip(1) == names_encoding(n) + tail
        }),
{
    let s = opt_names_layout(o) + tail;
    match o {
        None => {
            assert(s.skip(1) =~= tail);
        },
        Some(n) => {
            assert(s.skip(1) =~= names_encoding(n) + tail);
        },
    }
}

} // verus!
