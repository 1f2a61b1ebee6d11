//! The length-prefixed vector, and the opaque byte blob as its special case.

use vstd::prelude::*;
use crate::endian::ByteOrder;
use crate::error::Error;
use crate::ser::basic::{lemma_wire_seq_len, wire_seq};
use crate::ser::{Serialize, Serializer, bytes_size};
use crate::tls::de::{Buffer, Deserialize, IResult, Parsed, parse_take, take};
use crate::tls::uint24::u24;

verus! {

/// A sequence of elements behind a length field. The length field says how many
/// bytes the elements take on the wire.
#[derive(Debug, Clone, PartialEq, Eq)]
pub struct Vector<T, D> {
    pub length: T,
    pub data: Vec<D>,
}

/// A length-prefixed blob of bytes with no structure known to this library.
pub type Opaque<S> = Vector<S, u8>;

/// The mathematical value of a `Vector`.
#[verifier::ext_equal]
pub struct VectorView<L, E> {
    pub length: L,
    pub data: Seq<E>,
}

/// The values of the elements of `s`.
pub open spec fn view_seq<D: View>(s: Seq<D>) -> Seq<D::V> {
    Seq::new(s.len(), |i: int| s[i]@)
}

/// The values of bytes are the bytes.
pub proof fn lemma_view_seq_bytes(s: Seq<u8>)
    ensures
        view_seq(s) == s,
{
    assert(view_seq(s) =~= s);
}

impl<T: View, D: View> View for Vector<T, D> {
    type V = VectorView<T::V, D::V>;

    open spec fn view(&self) -> VectorView<T::V, D::V> {
        VectorView { length: self.length@, data: view_seq(self.data@) }
    }
}

/// An integer type that can stand before a vector as its length.
pub trait Length: View + Sized {
    /// The number that a length field of the value `v` holds.
    spec fn count(v: Self::V) -> nat;

    /// The largest number that a length field of this type can hold.
    spec fn max() -> nat;

    /// Every number that a length field can hold fits in a `usize`.
    proof fn lemma_max_fits()
        ensures
            Self::max() <= usize::MAX,
    ;

    /// The number that this length field holds.
    fn to_usize(&self) -> (n: usize)
        ensures
            n == Self::count(self@),
            n <= Self::max(),
    ;

    /// The length field that holds `n`, where `n` is not too large for one.
    fn from_usize(n: usize) -> (r: Option<Self>)
        ensures
            match r {
                Some(length) => Self::count(length@) == n && n <= Self::max(),
                None => n > Self::max(),
            },
    ;
}

impl Length for u8 {
    open spec fn count(v: u8) -> nat {
        v as nat
    }

    open spec fn max() -> nat {
        0xFF
    }

    proof fn lemma_max_fits() {
    }

    fn to_usize(&self) -> (n: usize) {
        *self as usize
    }

    fn from_usize(n: usize) -> (r: Option<u8>) {
        if n <= 0xFF {
            Some(n as u8)
        } else {
            None
        }
    }
}

impl Length for u16 {
    open spec fn count(v: u16) -> nat {
        v as nat
    }

    open spec fn max() -> nat {
        0xFFFF
    }

    proof fn lemma_max_fits() {
    }

    fn to_usize(&self) -> (n: usize) {
        *self as usize
    }

    fn from_usize(n: usize) -> (r: Option<u16>) {
        if n <= 0xFFFF {
            Some(n as u16)
        } else {
            None
        }
    }
}

impl Length for u24 {
    open spec fn count(v: nat) -> nat {
        v
    }

    open spec fn max() -> nat {
        0xFF_FFFF
    }

    proof fn lemma_max_fits() {
    }

    fn to_usize(&self) -> (n: usize) {
        u24::to_usize(*self)
    }

    fn from_usize(n: usize) -> (r: Option<u24>) {
        u24::checked_from(n)
    }
}

impl<T: Length, D: Serialize> Vector<T, D> {
    /// The length field holds the number of bytes that the elements take on
    /// the wire.
    pub open spec fn wf(&self) -> bool {
        T::count(self.length@) == wire_seq(self.data@, ByteOrder::BigEndian).len()
    }

    /// The vector of the elements `data`, with the length that belongs to
    /// them. Elements that take more bytes than the length field can say have
    /// no vector.
    pub fn new(data: Vec<D>) -> (r: Result<Vector<T, D>, Error>)
        ensures
            match r {
                Ok(vector) => vector.data == data && vector.wf(),
                Err(e) => {
                    &&& e == Error::LengthMismatch
                    &&& wire_seq(data@, ByteOrder::BigEndian).len() > T::max()
                },
            },
    {
        let size = bytes_size(&data);
        assert(data.wire(ByteOrder::BigEndian) == wire_seq(data@, ByteOrder::BigEndian));
        proof {
            T::lemma_max_fits();
        }
        match size {
            Ok(size) => match T::from_usize(size) {
                Some(length) => Ok(Vector { length, data }),
                None => Err(Error::LengthMismatch),
            },
            Err(_) => Err(Error::LengthMismatch),
        }
    }
}

impl<T: Serialize, D: Serialize> Serialize for Vector<T, D> {
    open spec fn wire(&self, order: ByteOrder) -> Seq<u8> {
        self.length.wire(order) + wire_seq(self.data@, order)
    }

    proof fn lemma_wire_len(&self, a: ByteOrder, b: ByteOrder) {
        self.length.lemma_wire_len(a, b);
        lemma_wire_seq_len(self.data@, a, b);
    }

    fn serialize(&self, serializer: &mut Serializer) {
        let ghost order = serializer.order();
        serializer.serialize_field(&self.length);
        serializer.serialize_field(&self.data);
        assert(serializer@ =~= old(serializer)@ + self.wire(order));
    }
}

/// The error of an element that could not be decoded from the bytes of its
/// vector. An element that needs more bytes than the vector has left shows
/// that the length of the vector does not fit its elements.
pub open spec fn element_error(e: Error) -> Error {
    match e {
        Error::UnexpectedEof => Error::LengthMismatch,
        _ => e,
    }
}

/// The elements that fill `s` exactly, decoded one after the other.
pub open spec fn parse_elements<D: Deserialize>(s: Seq<u8>) -> Result<Seq<D::V>, Error>
    decreases s.len(),
    via parse_elements_decreases::<D>
{
    if s.len() == 0 {
        Ok(Seq::empty())
    } else {
        match D::parse(s) {
            Ok((element, rest)) => match parse_elements::<D>(rest) {
                Ok(elements) => Ok(seq![element] + elements),
                Err(e) => Err(e),
            },
            Err(e) => Err(element_error(e)),
        }
    }
}

#[via_fn]
proof fn parse_elements_decreases<D: Deserialize>(s: Seq<u8>) {
    D::lemma_parse_advances(s);
}

/// What a vector's decoder finds at the start of `s`: the length, and in the
/// bytes that the length sets apart the elements, which fill them exactly.
pub open spec fn parse_vector<T: Deserialize + Length, D: Deserialize>(s: Seq<u8>) -> Parsed<
    VectorView<T::V, D::V>,
> {
    match T::parse(s) {
        Ok((length, rest)) => match parse_take(rest, T::count(length)) {
            Ok((bytes, rest)) => match parse_elements::<D>(bytes) {
                Ok(data) => Ok((VectorView { length, data }, rest)),
                Err(e) => Err(e),
            },
            Err(e) => Err(e),
        },
        Err(e) => Err(e),
    }
}

/// Bytes decode, as elements of a vector, to themselves.
pub proof fn lemma_parse_elements_bytes(s: Seq<u8>)
    ensures
        parse_elements::<u8>(s) == Ok::<Seq<u8>, Error>(s),
    decreases s.len(),
{
    if s.len() > 0 {
        lemma_parse_elements_bytes(s.skip(1));
        assert(seq![s[0]] + s.skip(1) =~= s);
    } else {
        assert(s =~= Seq::<u8>::empty());
    }
}

impl<T: Deserialize + Length, D: Deserialize> Deserialize for Vector<T, D> {
    open spec fn parse(s: Seq<u8>) -> Parsed<VectorView<T::V, D::V>> {
        parse_vector::<T, D>(s)
    }

    proof fn lemma_parse_advances(s: Seq<u8>) {
        T::lemma_parse_advances(s);
    }

    /// Reads the length, sets that many bytes apart and decodes elements from
    /// them until none is left.
    fn deserialize<'a>(input: Buffer<'a>) -> (r: IResult<'a, Vector<T, D>>) {
        let (after_length, length) = T::deserialize(input)?;
        let size = length.to_usize();
        let (rest, bytes) = take(after_length, size)?;
        let mut elements = Buffer::new(bytes, size);
        let mut data: Vec<D> = Vec::new();
        assert(elements@ =~= bytes@);
        assert(view_seq(data@) =~= Seq::<D::V>::empty());
        loop
            invariant
                parse_vector::<T, D>(input@) == match parse_elements::<D>(bytes@) {
                    Ok(all) => Ok::<(VectorView<T::V, D::V>, Seq<u8>), Error>(
                        (VectorView { length: length@, data: all }, rest@),
                    ),
                    Err(e) => Err(e),
                },
                parse_elements::<D>(bytes@) == match parse_elements::<D>(elements@) {
                    Ok(others) => Ok::<Seq<D::V>, Error>(view_seq(data@) + others),
                    Err(e) => Err(e),
                },
            decreases elements@.len(),
        {
            if elements.length() == 0 {
                assert(view_seq(data@) + Seq::<D::V>::empty() =~= view_seq(data@));
                return Ok((rest, Vector { length, data }));
            }
            proof {
                D::lemma_parse_advances(elements@);
            }
            match D::deserialize(elements) {
                Ok((others, element)) => {
                    let ghost before = view_seq(data@);
                    elements = others;
                    data.push(element);
                    assert(view_seq(data@) =~= before + seq![element@]);
                    assert forall|found: Seq<D::V>|
                        before + (seq![element@] + found) == view_seq(data@) + found by {
                        assert(before + (seq![element@] + found) =~= view_seq(data@) + found);
                    }
                },
                Err(e) => {
                    return Err(
                        match e {
                            Error::UnexpectedEof => Error::LengthMismatch,
                            _ => e,
                        },
                    );
                },
            }
        }
    }
}

} // verus!
