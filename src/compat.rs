//! How the shapes of the record read one another's bytes.

use vstd::prelude::*;
use crate::record::{decodes_all, layout_all, Record};
use crate::version_1;
use crate::version_2_a;
use crate::version_2_b;

verus! {

/// A record of the first shape decodes back to itself, from its own layout
/// and whatever follows it.
pub proof fn lemma_v1_round_trip(x: version_1::StructView, rest: Seq<u8>)
    requires
        x.valid(),
    ensures
        version_1::decodes_to(x.layout() + rest, x, rest),
        x.partial_eq(x),
{
}

/// A record that keeps only the byte array decodes back to itself.
pub proof fn lemma_v2_a_round_trip(y: version_2_a::StructView, rest: Seq<u8>)
    requires
        y.valid(),
    ensures
        version_2_a::decodes_to(y.layout() + rest, y, rest),
        y.partial_eq(y),
{
    assert(version_1::decodes_to(y.layout() + rest, y.to_v1(), rest));
    assert(version_2_a::from_v1(y.to_v1()) == y);
}

/// A record that keeps only the names decodes back to itself.
pub proof fn lemma_v2_b_round_trip(y: version_2_b::StructView, rest: Seq<u8>)
    requires
        y.valid(),
    ensures
        version_2_b::decodes_to(y.layout() + rest, y, rest),
        y.partial_eq(y),
{
    assert(version_1::decodes_to(y.layout() + rest, y.to_v1(), rest));
    assert(version_2_b::from_v1(y.to_v1()) == y);
}

/// A newer reader of the byte array reads a first-shape record that carries
/// one as that array with the record's version tag, and reads past the
/// names. One that does not carry it fails with an unexpected absence (see
/// the decoder's contract).
pub proof fn lemma_v2_a_reads_v1(x: version_1::StructView, rest: Seq<u8>)
    requires
        x.valid(),
        x.bytes is Some,
    ensures
        version_2_a::decodes_to(x.layout() + rest, version_2_a::from_v1(x), rest),
        version_2_a::from_v1(x).bytes == x.bytes.unwrap(),
        version_2_a::from_v1(x).version == x.version,
{
    assert(version_1::decodes_to(x.layout() + rest, x, rest));
}

/// A newer reader of the names reads a first-shape record that carries them
/// as those names with the record's version tag, and reads past the byte
/// array.
pub proof fn lemma_v2_b_reads_v1(x: version_1::StructView, rest: Seq<u8>)
    requires
        x.valid(),
        x.names is Some,
    ensures
        version_2_b::decodes_to(x.layout() + rest, version_2_b::from_v1(x), rest),
        version_2_b::from_v1(x).names == x.names.unwrap(),
        version_2_b::from_v1(x).version == x.version,
{
    assert(version_1::decodes_to(x.layout() + rest, x, rest));
}

/// A first-shape reader reads a record that keeps only the byte array as
/// that array, with the names absent.
pub proof fn lemma_v1_reads_v2_a(y: version_2_a::StructView, rest: Seq<u8>)
    requires
        y.valid(),
    ensures
        version_1::decodes_to(y.layout() + rest, y.to_v1(), rest),
        y.to_v1().version == y.version,
        y.to_v1().bytes == Some(y.bytes),
        y.to_v1().names is None,
{
}

/// A first-shape reader reads a record that keeps only the names as those
/// names, with the byte array absent.
pub proof fn lemma_v1_reads_v2_b(y: version_2_b::StructView, rest: Seq<u8>)
    requires
        y.valid(),
    ensures
        version_1::decodes_to(y.layout() + rest, y.to_v1(), rest),
        y.to_v1().version == y.version,
        y.to_v1().bytes is None,
        y.to_v1().names == Some(y.names),
{
}

/// Reading a record that keeps only the byte array down to the first shape,
/// writing that again and reading it back up gives the record unchanged.
pub proof fn lemma_v2_a_through_v1(y: version_2_a::StructView, rest: Seq<u8>)
    requires
        y.valid(),
    ensures
        version_1::decodes_to(y.layout() + rest, y.to_v1(), rest),
        y.to_v1().valid(),
        version_2_a::decodes_to(y.to_v1().layout() + rest, y, rest),
        y.partial_eq(y),
{
    assert(version_2_a::from_v1(y.to_v1()) == y);
}

/// Reading a record that keeps only the names down to the first shape,
/// writing that again and reading it back up gives the record unchanged.
pub proof fn lemma_v2_b_through_v1(y: version_2_b::StructView, rest: Seq<u8>)
    requires
        y.valid(),
    ensures
        version_1::decodes_to(y.layout() + rest, y.to_v1(), rest),
        y.to_v1().valid(),
        version_2_b::decodes_to(y.to_v1().layout() + rest, y, rest),
        y.partial_eq(y),
{
    assert(version_2_b::from_v1(y.to_v1()) == y);
}

/// Reading a first-shape record that carries its byte array up to the
/// newer shape, writing that again and reading it back down gives a record
/// partially equal to the first: only the names, which the newer shape does
/// not carry, are lost.
pub proof fn lemma_v1_through_v2_a(x: version_1::StructView, rest: Seq<u8>)
    requires
        x.valid(),
        x.bytes is Some,
    ensures
        version_2_a::decodes_to(x.layout() + rest, version_2_a::from_v1(x), rest),
        version_1::decodes_to(version_2_a::from_v1(x).layout() + rest, version_2_a::from_v1(x).to_v1(), rest),
        version_2_a::from_v1(x).to_v1().partial_eq(x),
{
    lemma_v2_a_reads_v1(x, rest);
}

/// Reading a first-shape record that carries its names up to the newer
/// shape, writing that again and reading it back down gives a record
/// partially equal to the first: only the byte array is lost.
pub proof fn lemma_v1_through_v2_b(x: version_1::StructView, rest: Seq<u8>)
    requires
        x.valid(),
        x.names is Some,
    ensures
        version_2_b::decodes_to(x.layout() + rest, version_2_b::from_v1(x), rest),
        version_1::decodes_to(version_2_b::from_v1(x).layout() + rest, version_2_b::from_v1(x).to_v1(), rest),
        version_2_b::from_v1(x).to_v1().partial_eq(x),
{
    lemma_v2_b_reads_v1(x, rest);
}

/// Partial equality of first-shape records is reflexive and symmetric.
pub proof fn lemma_v1_partial_eq(a: version_1::StructView, b: version_1::StructView)
    ensures
        a.partial_eq(a),
        a.partial_eq(b) == b.partial_eq(a),
{
}

/// Partial equality of byte-array records is reflexive and symmetric.
pub proof fn lemma_v2_a_partial_eq(a: version_2_a::StructView, b: version_2_a::StructView)
    ensures
        a.partial_eq(a),
        a.partial_eq(b) == b.partial_eq(a),
{
}

/// Partial equality of names records is reflexive and symmetric.
pub proof fn lemma_v2_b_partial_eq(a: version_2_b::StructView, b: version_2_b::StructView)
    ensures
        a.partial_eq(a),
        a.partial_eq(b) == b.partial_eq(a),
{
}

} // verus!

verus! {

/// First-shape records that all carry their byte arrays, written one after
/// another, read back as the same number of byte-array records, each as a single one
/// would be.
pub proof fn lemma_v2_a_reads_v1_all(xs: Seq<version_1::StructView>, rest: Seq<u8>)
    requires
        forall|i: int| 0 <= i < xs.len() ==> (#[trigger] xs[i]).valid() && xs[i].bytes is Some,
    ensures
        decodes_all::<version_2_a::Struct>(
            layout_all::<version_1::Struct>(xs) + rest,
            xs.map_values(|x: version_1::StructView| version_2_a::from_v1(x)),
            rest,
        ),
    decreases xs.len(),
{
    let ys = xs.map_values(|x: version_1::StructView| version_2_a::from_v1(x));
    if xs.len() == 0 {
        assert(layout_all::<version_1::Struct>(xs) + rest =~= rest);
    } else {
        let tail = xs.drop_first();
        let mid = layout_all::<version_1::Struct>(tail) + rest;
        lemma_v2_a_reads_v1_all(tail, rest);
        lemma_v2_a_reads_v1(xs[0], mid);
        assert(layout_all::<version_1::Struct>(xs) + rest =~= xs[0].layout() + mid);
        assert(ys.drop_first() =~= tail.map_values(|x: version_1::StructView| version_2_a::from_v1(x)));
        assert(version_2_a::decodes_to(layout_all::<version_1::Struct>(xs) + rest, ys[0], mid));
        assert(<version_2_a::Struct as Record>::decodes_to(layout_all::<version_1::Struct>(xs) + rest, ys[0], mid));
        assert(decodes_all::<version_2_a::Struct>(mid, ys.drop_first(), rest));
    }
}

/// First-shape records that all carry their names, written one after
/// another, read back as the same number of names records.
pub proof fn lemma_v2_b_reads_v1_all(xs: Seq<version_1::StructView>, rest: Seq<u8>)
    requires
        forall|i: int| 0 <= i < xs.len() ==> (#[trigger] xs[i]).valid() && xs[i].names is Some,
    ensures
        decodes_all::<version_2_b::Struct>(
            layout_all::<version_1::Struct>(xs) + rest,
            xs.map_values(|x: version_1::StructView| version_2_b::from_v1(x)),
            rest,
        ),
    decreases xs.len(),
{
    let ys = xs.map_values(|x: version_1::StructView| version_2_b::from_v1(x));
    if xs.len() == 0 {
        assert(layout_all::<version_1::Struct>(xs) + rest =~= rest);
    } else {
        let tail = xs.drop_first();
        let mid = layout_all::<version_1::Struct>(tail) + rest;
        lemma_v2_b_reads_v1_all(tail, rest);
        lemma_v2_b_reads_v1(xs[0], mid);
        assert(layout_all::<version_1::Struct>(xs) + rest =~= xs[0].layout() + mid);
        assert(ys.drop_first() =~= tail.map_values(|x: version_1::StructView| version_2_b::from_v1(x)));
        assert(version_2_b::decodes_to(layout_all::<version_1::Struct>(xs) + rest, ys[0], mid));
        assert(<version_2_b::Struct as Record>::decodes_to(layout_all::<version_1::Struct>(xs) + rest, ys[0], mid));
        assert(decodes_all::<version_2_b::Struct>(mid, ys.drop_first(), rest));
    }
}

/// Byte-array records written one after another read back, in the first
/// shape, as the same number of records with the same byte arrays and no names.
pub proof fn lemma_v1_reads_v2_a_all(ys: Seq<version_2_a::StructView>, rest: Seq<u8>)
    requires
        forall|i: int| 0 <= i < ys.len() ==> (#[trigger] ys[i]).valid(),
    ensures
        decodes_all::<version_1::Struct>(
            layout_all::<version_2_a::Struct>(ys) + rest,
            ys.map_values(|y: version_2_a::StructView| y.to_v1()),
            rest,
        ),
    decreases ys.len(),
{
    let xs = ys.map_values(|y: version_2_a::StructView| y.to_v1());
    if ys.len() == 0 {
        assert(layout_all::<version_2_a::Struct>(ys) + rest =~= rest);
    } else {
        let tail = ys.drop_first();
        let mid = layout_all::<version_2_a::Struct>(tail) + rest;
        lemma_v1_reads_v2_a_all(tail, rest);
        lemma_v1_reads_v2_a(ys[0], mid);
        assert(layout_all::<version_2_a::Struct>(ys) + rest =~= ys[0].layout() + mid);
        assert(xs.drop_first() =~= tail.map_values(|y: version_2_a::StructView| y.to_v1()));
        assert(version_1::decodes_to(layout_all::<version_2_a::Struct>(ys) + rest, xs[0], mid));
        assert(<version_1::Struct as Record>::decodes_to(layout_all::<version_2_a::Struct>(ys) + rest, xs[0], mid));
        assert(decodes_all::<version_1::Struct>(mid, xs.drop_first(), rest));
    }
}

/// Names records written one after another read back, in the first shape,
/// as the same number of records with the same names and no byte arrays.
pub proof fn lemma_v1_reads_v2_b_all(ys: Seq<version_2_b::StructView>, rest: Seq<u8>)
    requires
        forall|i: int| 0 <= i < ys.len() ==> (#[trigger] ys[i]).valid(),
    ensures
        decodes_all::<version_1::Struct>(
            layout_all::<version_2_b::Struct>(ys) + rest,
            ys.map_values(|y: version_2_b::StructView| y.to_v1()),
            rest,
        ),
    decreases ys.len(),
{
    let xs = ys.map_values(|y: version_2_b::StructView| y.to_v1());
    if ys.len() == 0 {
        assert(layout_all::<version_2_b::Struct>(ys) + rest =~= rest);
    } else {
        let tail = ys.drop_first();
        let mid = layout_all::<version_2_b::Struct>(tail) + rest;
        lemma_v1_reads_v2_b_all(tail, rest);
        lemma_v1_reads_v2_b(ys[0], mid);
        assert(layout_all::<version_2_b::Struct>(ys) + rest =~= ys[0].layout() + mid);
        assert(xs.drop_first() =~= tail.map_values(|y: version_2_b::StructView| y.to_v1()));
        assert(version_1::decodes_to(layout_all::<version_2_b::Struct>(ys) + rest, xs[0], mid));
        assert(<version_1::Struct as Record>::decodes_to(layout_all::<version_2_b::Struct>(ys) + rest, xs[0], mid));
        assert(decodes_all::<version_1::Struct>(mid, xs.drop_first(), rest));
    }
}

} // verus!
