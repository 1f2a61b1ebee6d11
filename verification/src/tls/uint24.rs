//! The 24-bit unsigned integer of handshake length fields.

use vstd::prelude::*;
use vstd::std_specs::convert::FromSpecImpl;
use crate::endian::{
    ByteOrder, be_bytes, be_value, lemma_be_bytes_explicit, lemma_be_value_explicit,
};
use crate::ser::{Serialize, Serializer};
use crate::tls::de::{Buffer, Deserialize, IResult, Parsed, parse_take, take};

verus! {

/// An unsigned integer below 2^24, kept in a `u32`. On the wire it is three
/// bytes, most significant first, whatever the byte order of the rest.
#[allow(non_camel_case_types)]
#[derive(Debug, Clone, Copy, PartialEq, Eq, Structural)]
pub struct u24 {
    data: u32,
}

impl View for u24 {
    type V = nat;

    /// The number held.
    closed spec fn view(&self) -> nat {
        self.data as nat
    }
}

/// The first three bytes of `s` as a big-endian number.
pub open spec fn parse_u24(s: Seq<u8>) -> Parsed<nat> {
    match parse_take(s, 3) {
        Ok((bytes, rest)) => Ok((be_value(bytes), rest)),
        Err(e) => Err(e),
    }
}

impl u24 {
    #[verifier::type_invariant]
    spec fn inv(self) -> bool {
        self.data < 0x100_0000
    }

    /// The number held is below 2^24.
    pub open spec fn wf(self) -> bool {
        self@ < 0x100_0000
    }

    /// The value with the number `n`, reduced to its low 24 bits.
    pub closed spec fn of(n: nat) -> u24 {
        u24 { data: (n % 0x100_0000) as u32 }
    }

    /// The number spelled by the first three bytes of `value`, most
    /// significant first.
    pub fn from_bytes(value: &[u8]) -> (r: u24)
        requires
            value@.len() >= 3,
        ensures
            r@ == be_value(value@.take(3)),
    {
        let b0: u32 = value[0] as u32;
        let b1: u32 = value[1] as u32;
        let b2: u32 = value[2] as u32;
        let data: u32 = b0 << 16 | b1 << 8 | b2;
        proof {
            assert(b0 < 256 && b1 < 256 && b2 < 256 ==> (b0 << 16 | b1 << 8 | b2) == b0 * 65536
                + b1 * 256 + b2) by (bit_vector);
            lemma_be_value_explicit(value@.take(3));
        }
        u24 { data }
    }

    /// The value that holds `n`, where `n` is below 2^24.
    pub fn checked_from(n: usize) -> (r: Option<u24>)
        ensures
            match r {
                Some(v) => v@ == n && n < 0x100_0000,
                None => n >= 0x100_0000,
            },
    {
        if n < 0x100_0000 {
            Some(u24 { data: n as u32 })
        } else {
            None
        }
    }

    /// The low 16 bits of the number.
    pub fn to_u16(self) -> (r: u16)
        ensures
            r == self@ % 0x1_0000,
    {
        let data: u32 = self.data;
        assert(data as u16 == data % 0x1_0000) by (bit_vector);
        self.data as u16
    }

    /// The number as a `usize`.
    pub fn to_usize(self) -> (r: usize)
        ensures
            r == self@,
            r < 0x100_0000,
    {
        proof {
            use_type_invariant(self);
        }
        self.data as usize
    }

    /// The value of `of(n)` is `n` reduced to its low 24 bits.
    pub proof fn lemma_of(n: nat)
        ensures
            Self::of(n)@ == n % 0x100_0000,
            Self::of(n).wf(),
    {
    }

    /// Two values that hold the same number are the same value.
    pub proof fn lemma_view_injective(a: u24, b: u24)
        ensures
            a@ == b@ <==> a == b,
    {
    }
}

impl Deserialize for u24 {
    open spec fn parse(s: Seq<u8>) -> Parsed<nat> {
        parse_u24(s)
    }

    proof fn lemma_parse_advances(s: Seq<u8>) {
    }

    /// Reads three bytes as a big-endian number.
    fn deserialize<'a>(input: Buffer<'a>) -> (r: IResult<'a, u24>) {
        let (input, bytes) = take(input, 3)?;
        let data = u24::from_bytes(bytes);
        assert(bytes@.take(3) =~= bytes@);
        Ok((input, data))
    }
}

impl From<u16> for u24 {
    /// The value of a 16-bit number.
    fn from(value: u16) -> (r: u24)
        ensures
            r@ == value,
    {
        assert(value as u32 == ((value as nat) % 0x100_0000) as u32);
        u24 { data: value as u32 }
    }
}

impl FromSpecImpl<u16> for u24 {
    open spec fn obeys_from_spec() -> bool {
        true
    }

    open spec fn from_spec(v: u16) -> u24 {
        u24::of(v as nat)
    }
}

impl From<u32> for u24 {
    /// The low 24 bits of a 32-bit number.
    fn from(value: u32) -> (r: u24)
        ensures
            r@ == value % 0x100_0000,
    {
        assert(value & 0xffffff == value % 0x100_0000) by (bit_vector);
        assert(value & 0xffffff == ((value as nat) % 0x100_0000) as u32);
        u24 { data: value & 0xffffff }
    }
}

impl FromSpecImpl<u32> for u24 {
    open spec fn obeys_from_spec() -> bool {
        true
    }

    open spec fn from_spec(v: u32) -> u24 {
        u24::of(v as nat)
    }
}

impl From<usize> for u24 {
    /// The low 24 bits of a number.
    fn from(value: usize) -> (r: u24)
        ensures
            r@ == value % 0x100_0000,
    {
        let low: usize = value & 0xffffff;
        assert(low == value % 0x100_0000 && low < 0x100_0000) by (bit_vector)
            requires
                low == value & 0xffffff,
        ;
        assert(low as u32 == ((value as nat) % 0x100_0000) as u32);
        u24 { data: low as u32 }
    }
}

impl FromSpecImpl<usize> for u24 {
    open spec fn obeys_from_spec() -> bool {
        true
    }

    open spec fn from_spec(v: usize) -> u24 {
        u24::of(v as nat)
    }
}

impl Serialize for u24 {
    open spec fn wire(&self, order: ByteOrder) -> Seq<u8> {
        be_bytes(self@ as int, 3)
    }

    proof fn lemma_wire_len(&self, a: ByteOrder, b: ByteOrder) {
    }

    fn serialize(&self, serializer: &mut Serializer) {
        let data: u32 = self.data;
        let bytes: [u8; 3] = [
            ((data >> 16) & 0xff) as u8,
            ((data >> 8) & 0xff) as u8,
            (data & 0xff) as u8,
        ];
        proof {
            assert(((data >> 16) & 0xff) == data / 65536 % 256) by (bit_vector);
            assert(((data >> 8) & 0xff) == data / 256 % 256) by (bit_vector);
            assert((data & 0xff) == data % 256) by (bit_vector);
            lemma_be_bytes_explicit(data as int);
            assert(bytes@ =~= be_bytes(data as int, 3));
        }
        serializer.serialize_bytes(bytes.as_slice());
    }
}

} // verus!
