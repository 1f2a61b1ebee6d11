//! A serializer that appends the canonical bytes of values to a buffer.
//!
//! Values are written field by field in declaration order, with no padding,
//! no length prefixes and no variant tags: framing belongs to the types that
//! are serialized, not to the serializer.

pub mod basic;

use vstd::prelude::*;
use vstd::string::StringSliceAdditionalSpecFns;
use crate::endian::{
    ByteOrder, be_bytes, int_bytes, lemma_int_bytes_len, write_i128_be, write_i128_le,
    write_i16_be, write_i16_le, write_i32_be, write_i32_le, write_i64_be, write_i64_le,
    write_i8, write_u128_be, write_u128_le, write_u16_be, write_u16_le, write_u32_be,
    write_u32_le, write_u64_be, write_u64_le, write_u8,
};
use crate::error::Error;

verus! {

/// Accumulates the bytes of the values serialized into it or, in a sizing
/// pass, only their count.
pub struct Serializer {
    output: Vec<u8>,
    order: ByteOrder,
    sizing: bool,
    size: usize,
    overflow: bool,
    written: Ghost<Seq<u8>>,
}

impl View for Serializer {
    type V = Seq<u8>;

    /// Every byte serialized so far, in order. A sizing pass does not store
    /// them.
    closed spec fn view(&self) -> Seq<u8> {
        self.written@
    }
}

impl Serializer {
    /// What the serializer holds agrees with what was serialized into it.
    pub closed spec fn wf(&self) -> bool {
        if self.sizing {
            &&& self.output@.len() == 0
            &&& !self.overflow ==> self.size == self.written@.len()
            &&& self.overflow ==> self.written@.len() > usize::MAX
        } else {
            self.output@ == self.written@
        }
    }

    /// The byte order in which multi-byte integers are written.
    pub closed spec fn order(&self) -> ByteOrder {
        self.order
    }

    /// Whether this is a sizing pass, which counts bytes and stores none.
    pub closed spec fn is_sizing(&self) -> bool {
        self.sizing
    }

    /// This serializer is `before` with `bytes` serialized after what it held.
    pub open spec fn extends(&self, before: Serializer, bytes: Seq<u8>) -> bool {
        &&& self.wf()
        &&& self@ == before@ + bytes
        &&& self.order() == before.order()
        &&& self.is_sizing() == before.is_sizing()
    }

    /// An empty serializer that stores bytes in the given order.
    pub fn new(order: ByteOrder) -> (s: Serializer)
        ensures
            s.wf(),
            s@ == Seq::<u8>::empty(),
            s.order() == order,
            !s.is_sizing(),
    {
        Serializer {
            output: Vec::new(),
            order,
            sizing: false,
            size: 0,
            overflow: false,
            written: Ghost(Seq::empty()),
        }
    }

    /// An empty serializer for a sizing pass.
    pub fn new_sizing(order: ByteOrder) -> (s: Serializer)
        ensures
            s.wf(),
            s@ == Seq::<u8>::empty(),
            s.order() == order,
            s.is_sizing(),
    {
        Serializer {
            output: Vec::new(),
            order,
            sizing: true,
            size: 0,
            overflow: false,
            written: Ghost(Seq::empty()),
        }
    }

    /// The number of bytes serialized so far, or `None` where it exceeds
    /// `usize::MAX`.
    pub fn size(&self) -> (n: Option<usize>)
        requires
            self.wf(),
        ensures
            match n {
                Some(n) => n == self@.len(),
                None => self@.len() > usize::MAX,
            },
    {
        if !self.sizing {
            Some(self.output.len())
        } else if self.overflow {
            None
        } else {
            Some(self.size)
        }
    }

    /// The bytes serialized so far. A sizing pass has stored none.
    pub fn into_bytes(self) -> (bytes: Vec<u8>)
        requires
            self.wf(),
        ensures
            bytes@ == if self.is_sizing() {
                Seq::<u8>::empty()
            } else {
                self@
            },
    {
        self.output
    }

    /// Counts `n` more bytes in a sizing pass.
    fn count(&mut self, n: usize, Ghost(bytes): Ghost<Seq<u8>>)
        requires
            old(self).wf(),
            old(self).sizing,
            bytes.len() == n,
        ensures
            final(self).extends(*old(self), bytes),
    {
        if !self.overflow {
            match self.size.checked_add(n) {
                Some(total) => {
                    self.size = total;
                },
                None => {
                    self.overflow = true;
                },
            }
        }
        self.written = Ghost(self.written@ + bytes);
    }

    /// Writes a boolean as one byte, 1 for `true` and 0 for `false`.
    pub fn serialize_bool(&mut self, v: bool)
        requires
            old(self).wf(),
        ensures
            final(self).extends(*old(self), seq![if v { 1u8 } else { 0u8 }]),
    {
        let byte: u8 = if v { 1 } else { 0 };
        self.serialize_u8(byte);
        assert(old(self)@.push(byte) =~= old(self)@ + seq![byte]);
    }

    /// Writes one byte.
    pub fn serialize_u8(&mut self, v: u8)
        requires
            old(self).wf(),
        ensures
            final(self).extends(*old(self), seq![v]),
    {
        if self.sizing {
            let ghost bytes = seq![v];
            self.count(1, Ghost(bytes));
        } else {
            write_u8(&mut self.output, v);
            self.written = Ghost(self.written@ + seq![v]);
            assert(old(self).output@.push(v) =~= old(self).output@ + seq![v]);
        }
    }

    /// Writes one byte, in two's complement.
    pub fn serialize_i8(&mut self, v: i8)
        requires
            old(self).wf(),
        ensures
            final(self).extends(*old(self), be_bytes(v as int, 1)),
    {
        if self.sizing {
            proof {
                lemma_int_bytes_len(v as int, 1, self.order);
            }
            self.count(1, Ghost(be_bytes(v as int, 1)));
        } else {
            write_i8(&mut self.output, v);
            self.written = Ghost(self.written@ + be_bytes(v as int, 1));
        }
    }

    /// Writes the 2 bytes of `v` in the configured byte order.
    pub fn serialize_u16(&mut self, v: u16)
        requires
            old(self).wf(),
        ensures
            final(self).extends(*old(self), int_bytes(v as int, 2, old(self).order())),
    {
        if self.sizing {
            proof {
                lemma_int_bytes_len(v as int, 2, self.order);
            }
            self.count(2, Ghost(int_bytes(v as int, 2, self.order)));
        } else {
            match self.order {
                ByteOrder::BigEndian => write_u16_be(&mut self.output, v),
                ByteOrder::LittleEndian => write_u16_le(&mut self.output, v),
            }
            self.written = Ghost(self.written@ + int_bytes(v as int, 2, self.order));
        }
    }

    /// Writes the 4 bytes of `v` in the configured byte order.
    pub fn serialize_u32(&mut self, v: u32)
        requires
            old(self).wf(),
        ensures
            final(self).extends(*old(self), int_bytes(v as int, 4, old(self).order())),
    {
        if self.sizing {
            proof {
                lemma_int_bytes_len(v as int, 4, self.order);
            }
            self.count(4, Ghost(int_bytes(v as int, 4, self.order)));
        } else {
            match self.order {
                ByteOrder::BigEndian => write_u32_be(&mut self.output, v),
                ByteOrder::LittleEndian => write_u32_le(&mut self.output, v),
            }
            self.written = Ghost(self.written@ + int_bytes(v as int, 4, self.order));
        }
    }

    /// Writes the 8 bytes of `v` in the configured byte order.
    pub fn serialize_u64(&mut self, v: u64)
        requires
            old(self).wf(),
        ensures
            final(self).extends(*old(self), int_bytes(v as int, 8, old(self).order())),
    {
        if self.sizing {
            proof {
                lemma_int_bytes_len(v as int, 8, self.order);
            }
            self.count(8, Ghost(int_bytes(v as int, 8, self.order)));
        } else {
            match self.order {
                ByteOrder::BigEndian => write_u64_be(&mut self.output, v),
                ByteOrder::LittleEndian => write_u64_le(&mut self.output, v),
            }
            self.written = Ghost(self.written@ + int_bytes(v as int, 8, self.order));
        }
    }

    /// Writes the 16 bytes of `v` in the configured byte order.
    pub fn serialize_u128(&mut self, v: u128)
        requires
            old(self).wf(),
        ensures
            final(self).extends(*old(self), int_bytes(v as int, 16, old(self).order())),
    {
        if self.sizing {
            proof {
                lemma_int_bytes_len(v as int, 16, self.order);
            }
            self.count(16, Ghost(int_bytes(v as int, 16, self.order)));
        } else {
            match self.order {
                ByteOrder::BigEndian => write_u128_be(&mut self.output, v),
                ByteOrder::LittleEndian => write_u128_le(&mut self.output, v),
            }
            self.written = Ghost(self.written@ + int_bytes(v as int, 16, self.order));
        }
    }

    /// Writes the 2 bytes of `v`, in two's complement, in the configured byte order.
    pub fn serialize_i16(&mut self, v: i16)
        requires
            old(self).wf(),
        ensures
            final(self).extends(*old(self), int_bytes(v as int, 2, old(self).order())),
    {
        if self.sizing {
            proof {
                lemma_int_bytes_len(v as int, 2, self.order);
            }
            self.count(2, Ghost(int_bytes(v as int, 2, self.order)));
        } else {
            match self.order {
                ByteOrder::BigEndian => write_i16_be(&mut self.output, v),
                ByteOrder::LittleEndian => write_i16_le(&mut self.output, v),
            }
            self.written = Ghost(self.written@ + int_bytes(v as int, 2, self.order));
        }
    }

    /// Writes the 4 bytes of `v`, in two's complement, in the configured byte order.
    pub fn serialize_i32(&mut self, v: i32)
        requires
            old(self).wf(),
        ensures
            final(self).extends(*old(self), int_bytes(v as int, 4, old(self).order())),
    {
        if self.sizing {
            proof {
                lemma_int_bytes_len(v as int, 4, self.order);
            }
            self.count(4, Ghost(int_bytes(v as int, 4, self.order)));
        } else {
            match self.order {
                ByteOrder::BigEndian => write_i32_be(&mut self.output, v),
                ByteOrder::LittleEndian => write_i32_le(&mut self.output, v),
            }
            self.written = Ghost(self.written@ + int_bytes(v as int, 4, self.order));
        }
    }

    /// Writes the 8 bytes of `v`, in two's complement, in the configured byte order.
    pub fn serialize_i64(&mut self, v: i64)
        requires
            old(self).wf(),
        ensures
            final(self).extends(*old(self), int_bytes(v as int, 8, old(self).order())),
    {
        if self.sizing {
            proof {
                lemma_int_bytes_len(v as int, 8, self.order);
            }
            self.count(8, Ghost(int_bytes(v as int, 8, self.order)));
        } else {
            match self.order {
                ByteOrder::BigEndian => write_i64_be(&mut self.output, v),
                ByteOrder::LittleEndian => write_i64_le(&mut self.output, v),
            }
            self.written = Ghost(self.written@ + int_bytes(v as int, 8, self.order));
        }
    }

    /// Writes the 16 bytes of `v`, in two's complement, in the configured byte order.
    pub fn serialize_i128(&mut self, v: i128)
        requires
            old(self).wf(),
        ensures
            final(self).extends(*old(self), int_bytes(v as int, 16, old(self).order())),
    {
        if self.sizing {
            proof {
                lemma_int_bytes_len(v as int, 16, self.order);
            }
            self.count(16, Ghost(int_bytes(v as int, 16, self.order)));
        } else {
            match self.order {
                ByteOrder::BigEndian => write_i128_be(&mut self.output, v),
                ByteOrder::LittleEndian => write_i128_le(&mut self.output, v),
            }
            self.written = Ghost(self.written@ + int_bytes(v as int, 16, self.order));
        }
    }

    /// Writes a character as the low byte of its code point, which for an
    /// ASCII character is the character itself.
    pub fn serialize_char(&mut self, v: char)
        requires
            old(self).wf(),
        ensures
            final(self).extends(*old(self), seq![(v as u32 % 256) as u8]),
    {
        let byte: u8 = (v as u32 % 256) as u8;
        self.serialize_u8(byte);
    }

    /// Writes the UTF-8 bytes of a string, with no length and no terminator.
    pub fn serialize_str(&mut self, v: &str)
        requires
            old(self).wf(),
        ensures
            final(self).extends(*old(self), v.spec_bytes()),
    {
        self.serialize_bytes(v.as_bytes());
    }

    /// Writes raw bytes, with no length and no terminator.
    pub fn serialize_bytes(&mut self, v: &[u8])
        requires
            old(self).wf(),
        ensures
            final(self).extends(*old(self), v@),
    {
        if self.sizing {
            self.count(v.len(), Ghost(v@));
        } else {
            self.output.extend_from_slice(v);
            self.written = Ghost(self.written@ + v@);
            assert(self.output@ =~= old(self).output@ + v@);
        }
    }

    /// Writes an absent optional value: a single zero byte.
    pub fn serialize_none(&mut self)
        requires
            old(self).wf(),
        ensures
            final(self).extends(*old(self), seq![0u8]),
    {
        self.serialize_u8(0);
    }

    /// Writes a present optional value: the value itself, with no marker.
    pub fn serialize_some<T: Serialize>(&mut self, value: &T)
        requires
            old(self).wf(),
        ensures
            final(self).extends(*old(self), value.wire(old(self).order())),
    {
        value.serialize(self);
    }

    /// Writes the unit value: nothing.
    pub fn serialize_unit(&mut self)
        requires
            old(self).wf(),
        ensures
            final(self).extends(*old(self), Seq::<u8>::empty()),
    {
        assert(self@ + Seq::<u8>::empty() =~= self@);
    }

    /// Writes a structure without fields: nothing.
    pub fn serialize_unit_struct(&mut self)
        requires
            old(self).wf(),
        ensures
            final(self).extends(*old(self), Seq::<u8>::empty()),
    {
        self.serialize_unit();
    }

    /// Writes a variant without payload: nothing. The index of the variant is
    /// its tag, and a tag is never written: where the format has one, it is a
    /// field of the enclosing structure.
    pub fn serialize_unit_variant(&mut self, _variant_index: u32)
        requires
            old(self).wf(),
        ensures
            final(self).extends(*old(self), Seq::<u8>::empty()),
    {
        self.serialize_unit();
    }

    /// Writes a structure of one field: the field itself.
    pub fn serialize_newtype_struct<T: Serialize>(&mut self, value: &T)
        requires
            old(self).wf(),
        ensures
            final(self).extends(*old(self), value.wire(old(self).order())),
    {
        value.serialize(self);
    }

    /// Writes the payload of a variant. The variant's tag is not written: where
    /// the format has one, it is a field of the enclosing structure.
    pub fn serialize_newtype_variant<T: Serialize>(&mut self, value: &T)
        requires
            old(self).wf(),
        ensures
            final(self).extends(*old(self), value.wire(old(self).order())),
    {
        value.serialize(self);
    }

    /// Writes one element of a sequence.
    pub fn serialize_element<T: Serialize>(&mut self, value: &T)
        requires
            old(self).wf(),
        ensures
            final(self).extends(*old(self), value.wire(old(self).order())),
    {
        value.serialize(self);
    }

    /// Writes the key of one entry of a map.
    pub fn serialize_key<T: Serialize>(&mut self, key: &T)
        requires
            old(self).wf(),
        ensures
            final(self).extends(*old(self), key.wire(old(self).order())),
    {
        key.serialize(self);
    }

    /// Writes the value of one entry of a map.
    pub fn serialize_value<T: Serialize>(&mut self, value: &T)
        requires
            old(self).wf(),
        ensures
            final(self).extends(*old(self), value.wire(old(self).order())),
    {
        value.serialize(self);
    }

    /// Writes one field of a structure.
    pub fn serialize_field<T: Serialize>(&mut self, value: &T)
        requires
            old(self).wf(),
        ensures
            final(self).extends(*old(self), value.wire(old(self).order())),
    {
        value.serialize(self);
    }
}

/// A value with a canonical byte representation.
pub trait Serialize {
    /// The bytes of this value in the given byte order.
    spec fn wire(&self, order: ByteOrder) -> Seq<u8>;

    /// The byte order changes the bytes of a value, not their number.
    proof fn lemma_wire_len(&self, a: ByteOrder, b: ByteOrder)
        ensures
            self.wire(a).len() == self.wire(b).len(),
    ;

    /// Serializes this value after what `serializer` already holds.
    fn serialize(&self, serializer: &mut Serializer)
        requires
            old(serializer).wf(),
        ensures
            final(serializer).extends(*old(serializer), self.wire(old(serializer).order())),
    ;
}

/// The bytes of `value` in the given byte order.
pub fn to_bytes<S: Serialize>(value: &S, order: ByteOrder) -> (r: Result<Vec<u8>, Error>)
    ensures
        r is Ok,
        r->Ok_0@ == value.wire(order),
{
    let mut serializer = Serializer::new(order);
    value.serialize(&mut serializer);
    assert(Seq::<u8>::empty() + value.wire(order) =~= value.wire(order));
    Ok(serializer.into_bytes())
}

/// The number of bytes that `value` serializes to, whatever the byte order,
/// found by a sizing pass that stores no byte. It fails where the number
/// exceeds `usize::MAX`.
pub fn bytes_size<T: Serialize>(value: &T) -> (r: Result<usize, Error>)
    ensures
        forall|order: ByteOrder|
            match r {
                Ok(n) => n == (#[trigger] value.wire(order)).len(),
                Err(e) => e == Error::LengthMismatch && value.wire(order).len() > usize::MAX,
            },
{
    let mut serializer = Serializer::new_sizing(ByteOrder::BigEndian);
    value.serialize(&mut serializer);
    assert(Seq::<u8>::empty() + value.wire(ByteOrder::BigEndian) =~= value.wire(
        ByteOrder::BigEndian,
    ));
    proof {
        assert forall|order: ByteOrder|
            (#[trigger] value.wire(order)).len() == value.wire(ByteOrder::BigEndian).len() by {
            value.lemma_wire_len(order, ByteOrder::BigEndian);
        }
    }
    match serializer.size() {
        Some(n) => Ok(n),
        None => Err(Error::LengthMismatch),
    }
}

} // verus!
