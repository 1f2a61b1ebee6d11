//! The cipher suites and their wire codes.

use vstd::prelude::*;
use crate::endian::{
    ByteOrder, be_bytes, int_bytes, lemma_be_value_of_be_bytes, lemma_int_bytes_len,
};
use crate::error::{Error, Kind};
use crate::ser::{Serialize, Serializer};
use crate::tls::de::{Buffer, Deserialize, IResult, Parsed, be_u16, parse_u16};
use crate::tls::round_trip::{RoundTrip, WireOfView};

verus! {

/// The cipher suites that a hello message can name.
#[allow(non_camel_case_types)]
#[derive(Clone, Copy, Debug, PartialEq, Eq, Structural)]
pub enum CipherSuite {
    TLS_NULL_WITH_NULL_NULL,
    TLS_RSA_WITH_NULL_MD5,
    TLS_RSA_WITH_NULL_SHA,
    TLS_RSA_WITH_RC4_128_MD5,
    TLS_RSA_WITH_RC4_128_SHA,
    TLS_DH_DSS_WITH_3DES_EDE_CBC_SHA,
    TLS_RSA_WITH_3DES_EDE_CBC_SHA,
    TLS_DH_RSA_WITH_3DES_EDE_CBC_SHA,
    TLS_DHE_DSS_WITH_3DES_EDE_CBC_SHA,
    TLS_DHE_RSA_WITH_3DES_EDE_CBC_SHA,
    TLS_DH_anon_WITH_RC4_128_MD5,
    TLS_DH_anon_WITH_3DES_EDE_CBC_SHA,
    TLS_RSA_WITH_AES_128_CBC_SHA,
    TLS_DH_DSS_WITH_AES_128_CBC_SHA,
    TLS_DH_RSA_WITH_AES_128_CBC_SHA,
    TLS_DHE_DSS_WITH_AES_128_CBC_SHA,
    TLS_DHE_RSA_WITH_AES_128_CBC_SHA,
    TLS_DH_anon_WITH_AES_128_CBC_SHA,
    TLS_RSA_WITH_AES_256_CBC_SHA,
    TLS_DH_DSS_WITH_AES_256_CBC_SHA,
    TLS_DH_RSA_WITH_AES_256_CBC_SHA,
    TLS_DHE_DSS_WITH_AES_256_CBC_SHA,
    TLS_DHE_RSA_WITH_AES_256_CBC_SHA,
    TLS_DH_anon_WITH_AES_256_CBC_SHA,
    TLS_RSA_WITH_NULL_SHA256,
    TLS_RSA_WITH_AES_128_CBC_SHA256,
    TLS_RSA_WITH_AES_256_CBC_SHA256,
    TLS_DH_DSS_WITH_AES_128_CBC_SHA256,
    TLS_DH_RSA_WITH_AES_128_CBC_SHA256,
    TLS_DHE_DSS_WITH_AES_128_CBC_SHA256,
    TLS_DHE_RSA_WITH_AES_128_CBC_SHA256,
    TLS_DH_DSS_WITH_AES_256_CBC_SHA256,
    TLS_DH_RSA_WITH_AES_256_CBC_SHA256,
    TLS_DHE_DSS_WITH_AES_256_CBC_SHA256,
    TLS_DHE_RSA_WITH_AES_256_CBC_SHA256,
    TLS_DH_anon_WITH_AES_128_CBC_SHA256,
    TLS_DH_anon_WITH_AES_256_CBC_SHA256,
    TLS_RSA_WITH_AES_128_GCM_SHA256,
    TLS_AES_128_GCM_SHA256,
    TLS_AES_256_GCM_SHA384,
    TLS_CHACHA20_POLY1305_SHA256,
    TLS_AES_128_CCM_SHA256,
    TLS_AES_128_CCM_8_SHA256,
}

impl View for CipherSuite {
    type V = CipherSuite;

    open spec fn view(&self) -> CipherSuite {
        *self
    }
}

impl CipherSuite {
    /// The wire code of this variant.
    pub open spec fn spec_code(self) -> u16 {
        match self {
            CipherSuite::TLS_NULL_WITH_NULL_NULL => 0x0000,
            CipherSuite::TLS_RSA_WITH_NULL_MD5 => 0x0001,
            CipherSuite::TLS_RSA_WITH_NULL_SHA => 0x0002,
            CipherSuite::TLS_RSA_WITH_RC4_128_MD5 => 0x0004,
            CipherSuite::TLS_RSA_WITH_RC4_128_SHA => 0x0005,
            CipherSuite::TLS_DH_DSS_WITH_3DES_EDE_CBC_SHA => 0x000D,
            CipherSuite::TLS_RSA_WITH_3DES_EDE_CBC_SHA => 0x000A,
            CipherSuite::TLS_DH_RSA_WITH_3DES_EDE_CBC_SHA => 0x0010,
            CipherSuite::TLS_DHE_DSS_WITH_3DES_EDE_CBC_SHA => 0x0013,
            CipherSuite::TLS_DHE_RSA_WITH_3DES_EDE_CBC_SHA => 0x0016,
            CipherSuite::TLS_DH_anon_WITH_RC4_128_MD5 => 0x0018,
            CipherSuite::TLS_DH_anon_WITH_3DES_EDE_CBC_SHA => 0x001B,
            CipherSuite::TLS_RSA_WITH_AES_128_CBC_SHA => 0x002F,
            CipherSuite::TLS_DH_DSS_WITH_AES_128_CBC_SHA => 0x0030,
            CipherSuite::TLS_DH_RSA_WITH_AES_128_CBC_SHA => 0x0031,
            CipherSuite::TLS_DHE_DSS_WITH_AES_128_CBC_SHA => 0x0032,
            CipherSuite::TLS_DHE_RSA_WITH_AES_128_CBC_SHA => 0x0033,
            CipherSuite::TLS_DH_anon_WITH_AES_128_CBC_SHA => 0x0034,
            CipherSuite::TLS_RSA_WITH_AES_256_CBC_SHA => 0x0035,
            CipherSuite::TLS_DH_DSS_WITH_AES_256_CBC_SHA => 0x0036,
            CipherSuite::TLS_DH_RSA_WITH_AES_256_CBC_SHA => 0x0037,
            CipherSuite::TLS_DHE_DSS_WITH_AES_256_CBC_SHA => 0x0038,
            CipherSuite::TLS_DHE_RSA_WITH_AES_256_CBC_SHA => 0x0039,
            CipherSuite::TLS_DH_anon_WITH_AES_256_CBC_SHA => 0x003A,
            CipherSuite::TLS_RSA_WITH_NULL_SHA256 => 0x003B,
            CipherSuite::TLS_RSA_WITH_AES_128_CBC_SHA256 => 0x003C,
            CipherSuite::TLS_RSA_WITH_AES_256_CBC_SHA256 => 0x003D,
            CipherSuite::TLS_DH_DSS_WITH_AES_128_CBC_SHA256 => 0x003E,
            CipherSuite::TLS_DH_RSA_WITH_AES_128_CBC_SHA256 => 0x003F,
            CipherSuite::TLS_DHE_DSS_WITH_AES_128_CBC_SHA256 => 0x0040,
            CipherSuite::TLS_DHE_RSA_WITH_AES_128_CBC_SHA256 => 0x0067,
            CipherSuite::TLS_DH_DSS_WITH_AES_256_CBC_SHA256 => 0x0068,
            CipherSuite::TLS_DH_RSA_WITH_AES_256_CBC_SHA256 => 0x0069,
            CipherSuite::TLS_DHE_DSS_WITH_AES_256_CBC_SHA256 => 0x006A,
            CipherSuite::TLS_DHE_RSA_WITH_AES_256_CBC_SHA256 => 0x006B,
            CipherSuite::TLS_DH_anon_WITH_AES_128_CBC_SHA256 => 0x006C,
            CipherSuite::TLS_DH_anon_WITH_AES_256_CBC_SHA256 => 0x006D,
            CipherSuite::TLS_RSA_WITH_AES_128_GCM_SHA256 => 0x009C,
            CipherSuite::TLS_AES_128_GCM_SHA256 => 0x1301,
            CipherSuite::TLS_AES_256_GCM_SHA384 => 0x1302,
            CipherSuite::TLS_CHACHA20_POLY1305_SHA256 => 0x1303,
            CipherSuite::TLS_AES_128_CCM_SHA256 => 0x1304,
            CipherSuite::TLS_AES_128_CCM_8_SHA256 => 0x1305,
        }
    }

    /// The variant whose wire code is `code`, if there is one.
    pub open spec fn from_code(code: u16) -> Option<CipherSuite> {
        match code {
            0x0000 => Some(CipherSuite::TLS_NULL_WITH_NULL_NULL),
            0x0001 => Some(CipherSuite::TLS_RSA_WITH_NULL_MD5),
            0x0002 => Some(CipherSuite::TLS_RSA_WITH_NULL_SHA),
            0x0004 => Some(CipherSuite::TLS_RSA_WITH_RC4_128_MD5),
            0x0005 => Some(CipherSuite::TLS_RSA_WITH_RC4_128_SHA),
            0x000D => Some(CipherSuite::TLS_DH_DSS_WITH_3DES_EDE_CBC_SHA),
            0x000A => Some(CipherSuite::TLS_RSA_WITH_3DES_EDE_CBC_SHA),
            0x0010 => Some(CipherSuite::TLS_DH_RSA_WITH_3DES_EDE_CBC_SHA),
            0x0013 => Some(CipherSuite::TLS_DHE_DSS_WITH_3DES_EDE_CBC_SHA),
            0x0016 => Some(CipherSuite::TLS_DHE_RSA_WITH_3DES_EDE_CBC_SHA),
            0x0018 => Some(CipherSuite::TLS_DH_anon_WITH_RC4_128_MD5),
            0x001B => Some(CipherSuite::TLS_DH_anon_WITH_3DES_EDE_CBC_SHA),
            0x002F => Some(CipherSuite::TLS_RSA_WITH_AES_128_CBC_SHA),
            0x0030 => Some(CipherSuite::TLS_DH_DSS_WITH_AES_128_CBC_SHA),
            0x0031 => Some(CipherSuite::TLS_DH_RSA_WITH_AES_128_CBC_SHA),
            0x0032 => Some(CipherSuite::TLS_DHE_DSS_WITH_AES_128_CBC_SHA),
            0x0033 => Some(CipherSuite::TLS_DHE_RSA_WITH_AES_128_CBC_SHA),
            0x0034 => Some(CipherSuite::TLS_DH_anon_WITH_AES_128_CBC_SHA),
            0x0035 => Some(CipherSuite::TLS_RSA_WITH_AES_256_CBC_SHA),
            0x0036 => Some(CipherSuite::TLS_DH_DSS_WITH_AES_256_CBC_SHA),
            0x0037 => Some(CipherSuite::TLS_DH_RSA_WITH_AES_256_CBC_SHA),
            0x0038 => Some(CipherSuite::TLS_DHE_DSS_WITH_AES_256_CBC_SHA),
            0x0039 => Some(CipherSuite::TLS_DHE_RSA_WITH_AES_256_CBC_SHA),
            0x003A => Some(CipherSuite::TLS_DH_anon_WITH_AES_256_CBC_SHA),
            0x003B => Some(CipherSuite::TLS_RSA_WITH_NULL_SHA256),
            0x003C => Some(CipherSuite::TLS_RSA_WITH_AES_128_CBC_SHA256),
            0x003D => Some(CipherSuite::TLS_RSA_WITH_AES_256_CBC_SHA256),
            0x003E => Some(CipherSuite::TLS_DH_DSS_WITH_AES_128_CBC_SHA256),
            0x003F => Some(CipherSuite::TLS_DH_RSA_WITH_AES_128_CBC_SHA256),
            0x0040 => Some(CipherSuite::TLS_DHE_DSS_WITH_AES_128_CBC_SHA256),
            0x0067 => Some(CipherSuite::TLS_DHE_RSA_WITH_AES_128_CBC_SHA256),
            0x0068 => Some(CipherSuite::TLS_DH_DSS_WITH_AES_256_CBC_SHA256),
            0x0069 => Some(CipherSuite::TLS_DH_RSA_WITH_AES_256_CBC_SHA256),
            0x006A => Some(CipherSuite::TLS_DHE_DSS_WITH_AES_256_CBC_SHA256),
            0x006B => Some(CipherSuite::TLS_DHE_RSA_WITH_AES_256_CBC_SHA256),
            0x006C => Some(CipherSuite::TLS_DH_anon_WITH_AES_128_CBC_SHA256),
            0x006D => Some(CipherSuite::TLS_DH_anon_WITH_AES_256_CBC_SHA256),
            0x009C => Some(CipherSuite::TLS_RSA_WITH_AES_128_GCM_SHA256),
            0x1301 => Some(CipherSuite::TLS_AES_128_GCM_SHA256),
            0x1302 => Some(CipherSuite::TLS_AES_256_GCM_SHA384),
            0x1303 => Some(CipherSuite::TLS_CHACHA20_POLY1305_SHA256),
            0x1304 => Some(CipherSuite::TLS_AES_128_CCM_SHA256),
            0x1305 => Some(CipherSuite::TLS_AES_128_CCM_8_SHA256),
            _ => None,
        }
    }

    /// The variant that `code` stands for, or the error for a code that
    /// stands for none.
    pub open spec fn checked(code: u16) -> Result<CipherSuite, Error> {
        match Self::from_code(code) {
            Some(v) => Ok(v),
            None => Err(Error::InvalidValue { kind: Kind::CipherSuite, code: code as u16 }),
        }
    }

    /// The wire code of this variant.
    #[verifier::when_used_as_spec(spec_code)]
    pub fn code(self) -> (c: u16)
        ensures
            c == self.spec_code(),
    {
        match self {
            CipherSuite::TLS_NULL_WITH_NULL_NULL => 0x0000,
            CipherSuite::TLS_RSA_WITH_NULL_MD5 => 0x0001,
            CipherSuite::TLS_RSA_WITH_NULL_SHA => 0x0002,
            CipherSuite::TLS_RSA_WITH_RC4_128_MD5 => 0x0004,
            CipherSuite::TLS_RSA_WITH_RC4_128_SHA => 0x0005,
            CipherSuite::TLS_DH_DSS_WITH_3DES_EDE_CBC_SHA => 0x000D,
            CipherSuite::TLS_RSA_WITH_3DES_EDE_CBC_SHA => 0x000A,
            CipherSuite::TLS_DH_RSA_WITH_3DES_EDE_CBC_SHA => 0x0010,
            CipherSuite::TLS_DHE_DSS_WITH_3DES_EDE_CBC_SHA => 0x0013,
            CipherSuite::TLS_DHE_RSA_WITH_3DES_EDE_CBC_SHA => 0x0016,
            CipherSuite::TLS_DH_anon_WITH_RC4_128_MD5 => 0x0018,
            CipherSuite::TLS_DH_anon_WITH_3DES_EDE_CBC_SHA => 0x001B,
            CipherSuite::TLS_RSA_WITH_AES_128_CBC_SHA => 0x002F,
            CipherSuite::TLS_DH_DSS_WITH_AES_128_CBC_SHA => 0x0030,
            CipherSuite::TLS_DH_RSA_WITH_AES_128_CBC_SHA => 0x0031,
            CipherSuite::TLS_DHE_DSS_WITH_AES_128_CBC_SHA => 0x0032,
            CipherSuite::TLS_DHE_RSA_WITH_AES_128_CBC_SHA => 0x0033,
            CipherSuite::TLS_DH_anon_WITH_AES_128_CBC_SHA => 0x0034,
            CipherSuite::TLS_RSA_WITH_AES_256_CBC_SHA => 0x0035,
            CipherSuite::TLS_DH_DSS_WITH_AES_256_CBC_SHA => 0x0036,
            CipherSuite::TLS_DH_RSA_WITH_AES_256_CBC_SHA => 0x0037,
            CipherSuite::TLS_DHE_DSS_WITH_AES_256_CBC_SHA => 0x0038,
            CipherSuite::TLS_DHE_RSA_WITH_AES_256_CBC_SHA => 0x0039,
            CipherSuite::TLS_DH_anon_WITH_AES_256_CBC_SHA => 0x003A,
            CipherSuite::TLS_RSA_WITH_NULL_SHA256 => 0x003B,
            CipherSuite::TLS_RSA_WITH_AES_128_CBC_SHA256 => 0x003C,
            CipherSuite::TLS_RSA_WITH_AES_256_CBC_SHA256 => 0x003D,
            CipherSuite::TLS_DH_DSS_WITH_AES_128_CBC_SHA256 => 0x003E,
            CipherSuite::TLS_DH_RSA_WITH_AES_128_CBC_SHA256 => 0x003F,
            CipherSuite::TLS_DHE_DSS_WITH_AES_128_CBC_SHA256 => 0x0040,
            CipherSuite::TLS_DHE_RSA_WITH_AES_128_CBC_SHA256 => 0x0067,
            CipherSuite::TLS_DH_DSS_WITH_AES_256_CBC_SHA256 => 0x0068,
            CipherSuite::TLS_DH_RSA_WITH_AES_256_CBC_SHA256 => 0x0069,
            CipherSuite::TLS_DHE_DSS_WITH_AES_256_CBC_SHA256 => 0x006A,
            CipherSuite::TLS_DHE_RSA_WITH_AES_256_CBC_SHA256 => 0x006B,
            CipherSuite::TLS_DH_anon_WITH_AES_128_CBC_SHA256 => 0x006C,
            CipherSuite::TLS_DH_anon_WITH_AES_256_CBC_SHA256 => 0x006D,
            CipherSuite::TLS_RSA_WITH_AES_128_GCM_SHA256 => 0x009C,
            CipherSuite::TLS_AES_128_GCM_SHA256 => 0x1301,
            CipherSuite::TLS_AES_256_GCM_SHA384 => 0x1302,
            CipherSuite::TLS_CHACHA20_POLY1305_SHA256 => 0x1303,
            CipherSuite::TLS_AES_128_CCM_SHA256 => 0x1304,
            CipherSuite::TLS_AES_128_CCM_8_SHA256 => 0x1305,
        }
    }

    /// The variant whose wire code is `code`; a code that no variant has is an
    /// `InvalidValue` error.
    pub fn try_from(code: u16) -> (r: Result<CipherSuite, Error>)
        ensures
            r == Self::checked(code),
    {
        match code {
            0x0000 => Ok(CipherSuite::TLS_NULL_WITH_NULL_NULL),
            0x0001 => Ok(CipherSuite::TLS_RSA_WITH_NULL_MD5),
            0x0002 => Ok(CipherSuite::TLS_RSA_WITH_NULL_SHA),
            0x0004 => Ok(CipherSuite::TLS_RSA_WITH_RC4_128_MD5),
            0x0005 => Ok(CipherSuite::TLS_RSA_WITH_RC4_128_SHA),
            0x000D => Ok(CipherSuite::TLS_DH_DSS_WITH_3DES_EDE_CBC_SHA),
            0x000A => Ok(CipherSuite::TLS_RSA_WITH_3DES_EDE_CBC_SHA),
            0x0010 => Ok(CipherSuite::TLS_DH_RSA_WITH_3DES_EDE_CBC_SHA),
            0x0013 => Ok(CipherSuite::TLS_DHE_DSS_WITH_3DES_EDE_CBC_SHA),
            0x0016 => Ok(CipherSuite::TLS_DHE_RSA_WITH_3DES_EDE_CBC_SHA),
            0x0018 => Ok(CipherSuite::TLS_DH_anon_WITH_RC4_128_MD5),
            0x001B => Ok(CipherSuite::TLS_DH_anon_WITH_3DES_EDE_CBC_SHA),
            0x002F => Ok(CipherSuite::TLS_RSA_WITH_AES_128_CBC_SHA),
            0x0030 => Ok(CipherSuite::TLS_DH_DSS_WITH_AES_128_CBC_SHA),
            0x0031 => Ok(CipherSuite::TLS_DH_RSA_WITH_AES_128_CBC_SHA),
            0x0032 => Ok(CipherSuite::TLS_DHE_DSS_WITH_AES_128_CBC_SHA),
            0x0033 => Ok(CipherSuite::TLS_DHE_RSA_WITH_AES_128_CBC_SHA),
            0x0034 => Ok(CipherSuite::TLS_DH_anon_WITH_AES_128_CBC_SHA),
            0x0035 => Ok(CipherSuite::TLS_RSA_WITH_AES_256_CBC_SHA),
            0x0036 => Ok(CipherSuite::TLS_DH_DSS_WITH_AES_256_CBC_SHA),
            0x0037 => Ok(CipherSuite::TLS_DH_RSA_WITH_AES_256_CBC_SHA),
            0x0038 => Ok(CipherSuite::TLS_DHE_DSS_WITH_AES_256_CBC_SHA),
            0x0039 => Ok(CipherSuite::TLS_DHE_RSA_WITH_AES_256_CBC_SHA),
            0x003A => Ok(CipherSuite::TLS_DH_anon_WITH_AES_256_CBC_SHA),
            0x003B => Ok(CipherSuite::TLS_RSA_WITH_NULL_SHA256),
            0x003C => Ok(CipherSuite::TLS_RSA_WITH_AES_128_CBC_SHA256),
            0x003D => Ok(CipherSuite::TLS_RSA_WITH_AES_256_CBC_SHA256),
            0x003E => Ok(CipherSuite::TLS_DH_DSS_WITH_AES_128_CBC_SHA256),
            0x003F => Ok(CipherSuite::TLS_DH_RSA_WITH_AES_128_CBC_SHA256),
            0x0040 => Ok(CipherSuite::TLS_DHE_DSS_WITH_AES_128_CBC_SHA256),
            0x0067 => Ok(CipherSuite::TLS_DHE_RSA_WITH_AES_128_CBC_SHA256),
            0x0068 => Ok(CipherSuite::TLS_DH_DSS_WITH_AES_256_CBC_SHA256),
            0x0069 => Ok(CipherSuite::TLS_DH_RSA_WITH_AES_256_CBC_SHA256),
            0x006A => Ok(CipherSuite::TLS_DHE_DSS_WITH_AES_256_CBC_SHA256),
            0x006B => Ok(CipherSuite::TLS_DHE_RSA_WITH_AES_256_CBC_SHA256),
            0x006C => Ok(CipherSuite::TLS_DH_anon_WITH_AES_128_CBC_SHA256),
            0x006D => Ok(CipherSuite::TLS_DH_anon_WITH_AES_256_CBC_SHA256),
            0x009C => Ok(CipherSuite::TLS_RSA_WITH_AES_128_GCM_SHA256),
            0x1301 => Ok(CipherSuite::TLS_AES_128_GCM_SHA256),
            0x1302 => Ok(CipherSuite::TLS_AES_256_GCM_SHA384),
            0x1303 => Ok(CipherSuite::TLS_CHACHA20_POLY1305_SHA256),
            0x1304 => Ok(CipherSuite::TLS_AES_128_CCM_SHA256),
            0x1305 => Ok(CipherSuite::TLS_AES_128_CCM_8_SHA256),
            _ => Err(Error::InvalidValue { kind: Kind::CipherSuite, code: code as u16 }),
        }
    }

    /// Looking up the code of a variant gives the variant back.
    pub proof fn lemma_from_code_of_code(self)
        ensures
            Self::from_code(self.spec_code()) == Some(self),
    {
    }

    /// A code stands for a variant exactly if it is the code of that variant.
    pub proof fn lemma_code_of_from_code(code: u16, v: CipherSuite)
        ensures
            Self::from_code(code) == Some(v) <==> v.spec_code() == code,
    {
    }
}

impl Serialize for CipherSuite {
    open spec fn wire(&self, order: ByteOrder) -> Seq<u8> {
        int_bytes(self.spec_code() as int, 2, order)
    }

    proof fn lemma_wire_len(&self, a: ByteOrder, b: ByteOrder) {
        lemma_int_bytes_len(self.spec_code() as int, 2, a);
        lemma_int_bytes_len(self.spec_code() as int, 2, b);
    }

    fn serialize(&self, serializer: &mut Serializer) {
        serializer.serialize_u16(self.code());
    }
}

impl Deserialize for CipherSuite {
    /// The variant for the code in the first two bytes of `s`.
    open spec fn parse(s: Seq<u8>) -> Parsed<CipherSuite> {
        match parse_u16(s) {
            Ok((code, rest)) => match Self::checked(code) {
                Ok(v) => Ok((v, rest)),
                Err(e) => Err(e),
            },
            Err(e) => Err(e),
        }
    }

    proof fn lemma_parse_advances(s: Seq<u8>) {
    }

    /// Reads the code and looks up its variant.
    fn deserialize<'a>(input: Buffer<'a>) -> (r: IResult<'a, CipherSuite>) {
        let (input, code) = be_u16(input)?;
        let value = CipherSuite::try_from(code)?;
        Ok((input, value))
    }
}

impl RoundTrip for CipherSuite {
    open spec fn decodable(&self) -> bool {
        true
    }

    proof fn lemma_parse_wire(&self, tail: Seq<u8>) {
        let s = self.wire(ByteOrder::BigEndian) + tail;
        let code = self.spec_code() as int;
        lemma_int_bytes_len(code, 2, ByteOrder::BigEndian);
        lemma_be_value_of_be_bytes(code);
        assert(s.take(2) =~= be_bytes(code, 2));
        assert(s.skip(2) =~= tail);
    }
}

impl WireOfView for CipherSuite {
    proof fn lemma_wire_of_view(&self, other: &CipherSuite, order: ByteOrder) {
    }
}

} // verus!
