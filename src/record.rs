//! What every shape of the record offers, and records laid end to end, as a
//! fixed-size array of records is written: each record's layout in turn,
//! with no count in front.

use vstd::prelude::*;
use crate::error::DecodeError;

verus! {

/// A shape of the record, with its layout and its decoder.
pub trait Record: Sized + View {
    /// The record holds values that the codec can write.
    spec fn valid(v: Self::V) -> bool;

    /// The bytes the record is written as.
    spec fn layout(v: Self::V) -> Seq<u8>;

    /// Decoding a record of this shape from `input` reads `v` and leaves
    /// `rest`.
    spec fn decodes_to(input: Seq<u8>, v: Self::V, rest: Seq<u8>) -> bool;

    /// Appends the record's layout to `dest`.
    fn encode_to(&self, dest: &mut Vec<u8>)
        requires
            Self::valid(self@),
        ensures
            final(dest)@ == old(dest)@ + Self::layout(self@),
    ;

    /// Reads a record from the front of `input` and advances `input` past it.
    fn decode(input: &mut &[u8]) -> (r: Result<Self, DecodeError>)
        ensures
            r matches Ok(x) ==> Self::decodes_to(old(input)@, x@, final(input)@),
            forall|v: Self::V, rest: Seq<u8>|
                #![trigger Self::decodes_to(old(input)@, v, rest)]
                Self::decodes_to(old(input)@, v, rest) ==> (r matches Ok(y) && y@ == v && final(input)@ == rest),
    ;
}

/// The views of a list of records.
pub open spec fn views<T: Record>(items: Seq<T>) -> Seq<T::V> {
    items.map_values(|x: T| x@)
}

/// The layouts of `vs`, one after another.
pub open spec fn layout_all<T: Record>(vs: Seq<T::V>) -> Seq<u8>
    decreases vs.len(),
{
    if vs.len() == 0 {
        Seq::empty()
    } else {
        T::layout(vs[0]) + layout_all::<T>(vs.drop_first())
    }
}

/// Decoding records of shape `T` one after another from `input` reads `vs`
/// and leaves `rest`.
pub open spec fn decodes_all<T: Record>(input: Seq<u8>, vs: Seq<T::V>, rest: Seq<u8>) -> bool
    decreases vs.len(),
{
    if vs.len() == 0 {
        input == rest
    } else {
        exists|mid: Seq<u8>|
            #![trigger T::decodes_to(input, vs[0], mid)]
            T::decodes_to(input, vs[0], mid) && decodes_all::<T>(mid, vs.drop_first(), rest)
    }
}

proof fn lemma_layout_all_push<T: Record>(vs: Seq<T::V>, v: T::V)
    ensures
        layout_all::<T>(vs.push(v)) == layout_all::<T>(vs) + T::layout(v),
    decreases vs.len(),
{
    if vs.len() == 0 {
        assert(vs.push(v).drop_first() =~= Seq::<T::V>::empty());
        assert(layout_all::<T>(vs.push(v).drop_first()) =~= Seq::<u8>::empty());
        assert(vs.push(v)[0] == v);
        assert(layout_all::<T>(vs.push(v)) =~= T::layout(v));
    } else {
        assert(vs.push(v).drop_first() =~= vs.drop_first().push(v));
        lemma_layout_all_push::<T>(vs.drop_first(), v);
        assert(layout_all::<T>(vs.push(v)) =~= layout_all::<T>(vs) + T::layout(v));
    }
}

/// The first record of a non-empty run, and where the others start.
proof fn lemma_decodes_all_first<T: Record>(input: Seq<u8>, vs: Seq<T::V>, rest: Seq<u8>) -> (mid: Seq<u8>)
    requires
        vs.len() > 0,
        decodes_all::<T>(input, vs, rest),
    ensures
        T::decodes_to(input, vs[0], mid),
        decodes_all::<T>(mid, vs.drop_first(), rest),
{
    assert(decodes_all::<T>(input, vs, rest) == (exists|m: Seq<u8>|
        #![trigger T::decodes_to(input, vs[0], m)]
        T::decodes_to(input, vs[0], m) && decodes_all::<T>(m, vs.drop_first(), rest)));
    choose|m: Seq<u8>| T::decodes_to(input, vs[0], m) && decodes_all::<T>(m, vs.drop_first(), rest)
}

proof fn lemma_decodes_all_push<T: Record>(input: Seq<u8>, vs: Seq<T::V>, mid: Seq<u8>, v: T::V, rest: Seq<u8>)
    requires
        decodes_all::<T>(input, vs, mid),
        T::decodes_to(mid, v, rest),
    ensures
        decodes_all::<T>(input, vs.push(v), rest),
    decreases vs.len(),
{
    if vs.len() == 0 {
        assert(vs.push(v).drop_first() =~= Seq::<T::V>::empty());
        assert(decodes_all::<T>(rest, vs.push(v).drop_first(), rest));
        assert(T::decodes_to(input, vs.push(v)[0], rest));
    } else {
        let m = lemma_decodes_all_first::<T>(input, vs, mid);
        lemma_decodes_all_push::<T>(m, vs.drop_first(), mid, v, rest);
        assert(vs.push(v).drop_first() =~= vs.drop_first().push(v));
        assert(vs.push(v)[0] == vs[0]);
        assert(T::decodes_to(input, vs.push(v)[0], m) && decodes_all::<T>(m, vs.push(v).drop_first(), rest));
    }
}

/// Writes the records of `items` one after another.
pub fn encode_all<T: Record>(items: &[T]) -> (r: Vec<u8>)
    requires
        forall|i: int| 0 <= i < items@.len() ==> T::valid(#[trigger] items@[i]@),
    ensures
        r@ == layout_all::<T>(views(items@)),
{
    let mut r: Vec<u8> = Vec::new();
    let mut i: usize = 0;
    while i < items.len()
        invariant
            0 <= i <= items@.len(),
            forall|j: int| 0 <= j < items@.len() ==> T::valid(#[trigger] items@[j]@),
            r@ == layout_all::<T>(views(items@.take(i as int))),
        decreases items@.len() - i,
    {
        items[i].encode_to(&mut r);
        proof {
            lemma_layout_all_push::<T>(views(items@.take(i as int)), items@[i as int]@);
            assert(views(items@.take(i as int + 1)) =~= views(items@.take(i as int)).push(items@[i as int]@));
        }
        i = i + 1;
    }
    assert(items@.take(i as int) =~= items@);
    r
}

/// Reads `count` records of shape `T` one after another from the front of
/// `input` and advances `input` past them. It succeeds exactly when the input
/// holds that many records in turn, and then gives them.
pub fn decode_all<T: Record>(input: &mut &[u8], count: usize) -> (r: Result<Vec<T>, DecodeError>)
    ensures
        r matches Ok(v) ==> v@.len() == count && decodes_all::<T>(old(input)@, views(v@), final(input)@),
        forall|vs: Seq<T::V>, rest: Seq<u8>|
            #![trigger decodes_all::<T>(old(input)@, vs, rest)]
            vs.len() == count && decodes_all::<T>(old(input)@, vs, rest) ==> (r matches Ok(v) && views(v@) == vs
                && final(input)@ == rest),
{
    let ghost s0 = input@;
    let mut out: Vec<T> = Vec::new();
    let mut i: usize = 0;
    assert(decodes_all::<T>(s0, views(out@), input@));
    assert forall|vs: Seq<T::V>, rest: Seq<u8>| vs.len() == count && decodes_all::<T>(s0, vs, rest) implies views(out@)
        == vs.take(0) && decodes_all::<T>(input@, vs.skip(0), rest) by {
        assert(vs.skip(0) =~= vs);
        assert(views(out@) =~= vs.take(0));
    }
    while i < count
        invariant
            0 <= i <= count,
            s0 == old(input)@,
            out@.len() == i,
            decodes_all::<T>(s0, views(out@), input@),
            forall|vs: Seq<T::V>, rest: Seq<u8>|
                #![trigger decodes_all::<T>(s0, vs, rest)]
                vs.len() == count && decodes_all::<T>(s0, vs, rest) ==> views(out@) == vs.take(i as int)
                    && decodes_all::<T>(input@, vs.skip(i as int), rest),
        decreases count - i,
    {
        let ghost before = input@;
        let ghost seen = views(out@);
        let x = match T::decode(input) {
            Ok(x) => x,
            Err(e) => {
                assert forall|vs: Seq<T::V>, rest: Seq<u8>| vs.len() == count implies !decodes_all::<T>(s0, vs, rest) by {
                    if decodes_all::<T>(s0, vs, rest) {
                        assert(vs.skip(i as int).len() > 0);
                        let m = lemma_decodes_all_first::<T>(before, vs.skip(i as int), rest);
                        assert(T::decodes_to(before, vs.skip(i as int)[0], m));
                    }
                }
                return Err(e);
            },
        };
        proof {
            lemma_decodes_all_push::<T>(s0, seen, before, x@, input@);
            assert forall|vs: Seq<T::V>, rest: Seq<u8>| vs.len() == count && decodes_all::<T>(s0, vs, rest) implies
                seen.push(x@) == vs.take(i as int + 1) && decodes_all::<T>(input@, vs.skip(i as int + 1), rest) by {
                let tail = vs.skip(i as int);
                assert(tail.len() > 0);
                let m = lemma_decodes_all_first::<T>(before, tail, rest);
                assert(T::decodes_to(before, tail[0], m));
                assert(tail[0] == vs[i as int]);
                assert(tail.drop_first() =~= vs.skip(i as int + 1));
                assert(vs.take(i as int + 1) =~= vs.take(i as int).push(vs[i as int]));
            }
        }
        out.push(x);
        assert(views(out@) =~= seen.push(x@));
        i = i + 1;
    }
    assert forall|vs: Seq<T::V>, rest: Seq<u8>| vs.len() == count && decodes_all::<T>(s0, vs, rest) implies
        views(out@) == vs && input@ == rest by {
        assert(vs.take(count as int) =~= vs);
        assert(vs.skip(count as int).len() == 0);
    }
    Ok(out)
}

} // verus!
