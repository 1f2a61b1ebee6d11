//! The byte representations of the basic types: integers, booleans,
//! characters, the unit, optional values, vectors and arrays.

use vstd::prelude::*;
use crate::endian::{ByteOrder, be_bytes, int_bytes, lemma_int_bytes_len};
use crate::ser::{Serialize, Serializer};

verus! {

impl Serialize for bool {
    open spec fn wire(&self, order: ByteOrder) -> Seq<u8> {
        seq![if *self { 1u8 } else { 0u8 }]
    }

    proof fn lemma_wire_len(&self, a: ByteOrder, b: ByteOrder) {
    }

    fn serialize(&self, serializer: &mut Serializer) {
        serializer.serialize_bool(*self);
    }
}

impl Serialize for u8 {
    open spec fn wire(&self, order: ByteOrder) -> Seq<u8> {
        seq![*self]
    }

    proof fn lemma_wire_len(&self, a: ByteOrder, b: ByteOrder) {
    }

    fn serialize(&self, serializer: &mut Serializer) {
        serializer.serialize_u8(*self);
    }
}

impl Serialize for i8 {
    open spec fn wire(&self, order: ByteOrder) -> Seq<u8> {
        be_bytes(*self as int, 1)
    }

    proof fn lemma_wire_len(&self, a: ByteOrder, b: ByteOrder) {
    }

    fn serialize(&self, serializer: &mut Serializer) {
        serializer.serialize_i8(*self);
    }
}

impl Serialize for u16 {
    open spec fn wire(&self, order: ByteOrder) -> Seq<u8> {
        int_bytes(*self as int, 2, order)
    }

    proof fn lemma_wire_len(&self, a: ByteOrder, b: ByteOrder) {
        lemma_int_bytes_len(*self as int, 2, a);
        lemma_int_bytes_len(*self as int, 2, b);
    }

    fn serialize(&self, serializer: &mut Serializer) {
        serializer.serialize_u16(*self);
    }
}

impl Serialize for u32 {
    open spec fn wire(&self, order: ByteOrder) -> Seq<u8> {
        int_bytes(*self as int, 4, order)
    }

    proof fn lemma_wire_len(&self, a: ByteOrder, b: ByteOrder) {
        lemma_int_bytes_len(*self as int, 4, a);
        lemma_int_bytes_len(*self as int, 4, b);
    }

    fn serialize(&self, serializer: &mut Serializer) {
        serializer.serialize_u32(*self);
    }
}

impl Serialize for u64 {
    open spec fn wire(&self, order: ByteOrder) -> Seq<u8> {
        int_bytes(*self as int, 8, order)
    }

    proof fn lemma_wire_len(&self, a: ByteOrder, b: ByteOrder) {
        lemma_int_bytes_len(*self as int, 8, a);
        lemma_int_bytes_len(*self as int, 8, b);
    }

    fn serialize(&self, serializer: &mut Serializer) {
        serializer.serialize_u64(*self);
    }
}

impl Serialize for u128 {
    open spec fn wire(&self, order: ByteOrder) -> Seq<u8> {
        int_bytes(*self as int, 16, order)
    }

    proof fn lemma_wire_len(&self, a: ByteOrder, b: ByteOrder) {
        lemma_int_bytes_len(*self as int, 16, a);
        lemma_int_bytes_len(*self as int, 16, b);
    }

    fn serialize(&self, serializer: &mut Serializer) {
        serializer.serialize_u128(*self);
    }
}

impl Serialize for i16 {
    open spec fn wire(&self, order: ByteOrder) -> Seq<u8> {
        int_bytes(*self as int, 2, order)
    }

    proof fn lemma_wire_len(&self, a: ByteOrder, b: ByteOrder) {
        lemma_int_bytes_len(*self as int, 2, a);
        lemma_int_bytes_len(*self as int, 2, b);
    }

    fn serialize(&self, serializer: &mut Serializer) {
        serializer.serialize_i16(*self);
    }
}

impl Serialize for i32 {
    open spec fn wire(&self, order: ByteOrder) -> Seq<u8> {
        int_bytes(*self as int, 4, order)
    }

    proof fn lemma_wire_len(&self, a: ByteOrder, b: ByteOrder) {
        lemma_int_bytes_len(*self as int, 4, a);
        lemma_int_bytes_len(*self as int, 4, b);
    }

    fn serialize(&self, serializer: &mut Serializer) {
        serializer.serialize_i32(*self);
    }
}

impl Serialize for i64 {
    open spec fn wire(&self, order: ByteOrder) -> Seq<u8> {
        int_bytes(*self as int, 8, order)
    }

    proof fn lemma_wire_len(&self, a: ByteOrder, b: ByteOrder) {
        lemma_int_bytes_len(*self as int, 8, a);
        lemma_int_bytes_len(*self as int, 8, b);
    }

    fn serialize(&self, serializer: &mut Serializer) {
        serializer.serialize_i64(*self);
    }
}

impl Serialize for i128 {
    open spec fn wire(&self, order: ByteOrder) -> Seq<u8> {
        int_bytes(*self as int, 16, order)
    }

    proof fn lemma_wire_len(&self, a: ByteOrder, b: ByteOrder) {
        lemma_int_bytes_len(*self as int, 16, a);
        lemma_int_bytes_len(*self as int, 16, b);
    }

    fn serialize(&self, serializer: &mut Serializer) {
        serializer.serialize_i128(*self);
    }
}

impl Serialize for char {
    open spec fn wire(&self, order: ByteOrder) -> Seq<u8> {
        seq![(*self as u32 % 256) as u8]
    }

    proof fn lemma_wire_len(&self, a: ByteOrder, b: ByteOrder) {
    }

    fn serialize(&self, serializer: &mut Serializer) {
        serializer.serialize_char(*self);
    }
}

impl Serialize for () {
    open spec fn wire(&self, order: ByteOrder) -> Seq<u8> {
        Seq::empty()
    }

    proof fn lemma_wire_len(&self, a: ByteOrder, b: ByteOrder) {
    }

    fn serialize(&self, serializer: &mut Serializer) {
        serializer.serialize_unit();
    }
}

impl<T: Serialize> Serialize for Option<T> {
    open spec fn wire(&self, order: ByteOrder) -> Seq<u8> {
        match self {
            Some(value) => value.wire(order),
            None => seq![0u8],
        }
    }

    proof fn lemma_wire_len(&self, a: ByteOrder, b: ByteOrder) {
        match self {
            Some(value) => value.lemma_wire_len(a, b),
            None => {},
        }
    }

    fn serialize(&self, serializer: &mut Serializer) {
        match self {
            Some(value) => serializer.serialize_some(value),
            None => serializer.serialize_none(),
        }
    }
}

/// The bytes of the elements of `s`, one after the other.
pub open spec fn wire_seq<T: Serialize>(s: Seq<T>, order: ByteOrder) -> Seq<u8>
    decreases s.len(),
{
    if s.len() == 0 {
        Seq::empty()
    } else {
        wire_seq(s.drop_last(), order) + s.last().wire(order)
    }
}

/// The byte order does not change the number of bytes of a sequence.
pub proof fn lemma_wire_seq_len<T: Serialize>(s: Seq<T>, a: ByteOrder, b: ByteOrder)
    ensures
        wire_seq(s, a).len() == wire_seq(s, b).len(),
    decreases s.len(),
{
    if s.len() > 0 {
        lemma_wire_seq_len(s.drop_last(), a, b);
        s.last().lemma_wire_len(a, b);
    }
}

/// The representation of one element alone is its own.
pub proof fn lemma_wire_seq_one<T: Serialize>(v: T, order: ByteOrder)
    ensures
        wire_seq(seq![v], order) == v.wire(order),
{
    let s = seq![v];
    assert(s.drop_last() =~= Seq::<T>::empty());
    assert(wire_seq(s.drop_last(), order) =~= Seq::<u8>::empty());
    assert(s.last() == v);
    assert(wire_seq(s, order) =~= v.wire(order));
}

/// A sequence of bytes is its own representation.
pub proof fn lemma_wire_seq_bytes(s: Seq<u8>, order: ByteOrder)
    ensures
        wire_seq(s, order) == s,
    decreases s.len(),
{
    if s.len() > 0 {
        lemma_wire_seq_bytes(s.drop_last(), order);
        assert(s.drop_last() + seq![s.last()] =~= s);
    } else {
        assert(wire_seq(s, order) =~= s);
    }
}

/// The representation of two sequences joined is that of the first followed by
/// that of the second.
pub proof fn lemma_wire_seq_concat<T: Serialize>(s: Seq<T>, t: Seq<T>, order: ByteOrder)
    ensures
        wire_seq(s + t, order) == wire_seq(s, order) + wire_seq(t, order),
    decreases t.len(),
{
    if t.len() == 0 {
        assert(s + t =~= s);
        assert(wire_seq(s, order) + wire_seq(t, order) =~= wire_seq(s, order));
    } else {
        lemma_wire_seq_concat(s, t.drop_last(), order);
        assert((s + t).drop_last() =~= s + t.drop_last());
        assert((s + t).last() == t.last());
        assert(wire_seq(s + t, order) =~= wire_seq(s, order) + wire_seq(t, order));
    }
}

/// Serializes the elements of `items` in order.
fn serialize_all<T: Serialize>(items: &[T], serializer: &mut Serializer)
    requires
        old(serializer).wf(),
    ensures
        final(serializer).extends(*old(serializer), wire_seq(items@, old(serializer).order())),
{
    let ghost order = serializer.order();
    let mut i: usize = 0;
    assert(serializer@ + wire_seq(items@.take(0), order) =~= serializer@);
    while i < items.len()
        invariant
            i <= items@.len(),
            serializer.extends(*old(serializer), wire_seq(items@.take(i as int), order)),
            order == old(serializer).order(),
        decreases items@.len() - i,
    {
        serializer.serialize_element(&items[i]);
        proof {
            let next = items@.take(i + 1);
            assert(next.drop_last() =~= items@.take(i as int));
            assert(next.last() == items@[i as int]);
            assert(serializer@ =~= old(serializer)@ + wire_seq(next, order));
        }
        i += 1;
    }
    assert(items@.take(i as int) =~= items@);
}

impl<T: Serialize> Serialize for Vec<T> {
    open spec fn wire(&self, order: ByteOrder) -> Seq<u8> {
        wire_seq(self@, order)
    }

    proof fn lemma_wire_len(&self, a: ByteOrder, b: ByteOrder) {
        lemma_wire_seq_len(self@, a, b);
    }

    fn serialize(&self, serializer: &mut Serializer) {
        serialize_all(self.as_slice(), serializer);
    }
}

impl<T: Serialize, const N: usize> Serialize for [T; N] {
    open spec fn wire(&self, order: ByteOrder) -> Seq<u8> {
        wire_seq(self@, order)
    }

    proof fn lemma_wire_len(&self, a: ByteOrder, b: ByteOrder) {
        lemma_wire_seq_len(self@, a, b);
    }

    fn serialize(&self, serializer: &mut Serializer) {
        serialize_all(self.as_slice(), serializer);
    }
}

} // verus!
