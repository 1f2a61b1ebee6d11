//! The closed enumerations of the record and handshake layers. Each binds its
//! symbolic names to explicit wire codes; a code that no name is bound to is
//! rejected, never mapped to a default.

use vstd::prelude::*;
use crate::endian::{
    ByteOrder, be_bytes, int_bytes, lemma_be_value_of_be_bytes, lemma_int_bytes_len,
};
use crate::error::{Error, Kind};
use crate::ser::{Serialize, Serializer};
use crate::tls::de::{Buffer, Deserialize, IResult, Parsed, be_u16, be_u8, parse_u16, parse_u8};
use crate::tls::round_trip::{RoundTrip, WireOfView};

verus! {

/// What a record carries.
#[derive(Clone, Copy, Debug, PartialEq, Eq, Structural)]
pub enum ContentType {
    ChangeCipherSpec,
    Alert,
    Handshake,
    ApplicationData,
}

impl View for ContentType {
    type V = ContentType;

    open spec fn view(&self) -> ContentType {
        *self
    }
}

impl ContentType {
    /// The wire code of this variant.
    pub open spec fn spec_code(self) -> u8 {
        match self {
            ContentType::ChangeCipherSpec => 20,
            ContentType::Alert => 21,
            ContentType::Handshake => 22,
            ContentType::ApplicationData => 23,
        }
    }

    /// The variant whose wire code is `code`, if there is one.
    pub open spec fn from_code(code: u8) -> Option<ContentType> {
        match code {
            20 => Some(ContentType::ChangeCipherSpec),
            21 => Some(ContentType::Alert),
            22 => Some(ContentType::Handshake),
            23 => Some(ContentType::ApplicationData),
            _ => None,
        }
    }

    /// The variant that `code` stands for, or the error for a code that
    /// stands for none.
    pub open spec fn checked(code: u8) -> Result<ContentType, Error> {
        match Self::from_code(code) {
            Some(v) => Ok(v),
            None => Err(Error::InvalidValue { kind: Kind::ContentType, code: code as u16 }),
        }
    }

    /// The wire code of this variant.
    #[verifier::when_used_as_spec(spec_code)]
    pub fn code(self) -> (c: u8)
        ensures
            c == self.spec_code(),
    {
        match self {
            ContentType::ChangeCipherSpec => 20,
            ContentType::Alert => 21,
            ContentType::Handshake => 22,
            ContentType::ApplicationData => 23,
        }
    }

    /// The variant whose wire code is `code`; a code that no variant has is an
    /// `InvalidValue` error.
    pub fn try_from(code: u8) -> (r: Result<ContentType, Error>)
        ensures
            r == Self::checked(code),
    {
        match code {
            20 => Ok(ContentType::ChangeCipherSpec),
            21 => Ok(ContentType::Alert),
            22 => Ok(ContentType::Handshake),
            23 => Ok(ContentType::ApplicationData),
            _ => Err(Error::InvalidValue { kind: Kind::ContentType, code: code as u16 }),
        }
    }

    /// Looking up the code of a variant gives the variant back.
    pub proof fn lemma_from_code_of_code(self)
        ensures
            Self::from_code(self.spec_code()) == Some(self),
    {
    }

    /// A code stands for a variant exactly if it is the code of that variant.
    pub proof fn lemma_code_of_from_code(code: u8, v: ContentType)
        ensures
            Self::from_code(code) == Some(v) <==> v.spec_code() == code,
    {
    }
}

impl Serialize for ContentType {
    open spec fn wire(&self, order: ByteOrder) -> Seq<u8> {
        seq![self.spec_code()]
    }

    proof fn lemma_wire_len(&self, a: ByteOrder, b: ByteOrder) {
    }

    fn serialize(&self, serializer: &mut Serializer) {
        serializer.serialize_u8(self.code());
    }
}

impl Deserialize for ContentType {
    /// The variant for the code in the first byte of `s`.
    open spec fn parse(s: Seq<u8>) -> Parsed<ContentType> {
        match parse_u8(s) {
            Ok((code, rest)) => match Self::checked(code) {
                Ok(v) => Ok((v, rest)),
                Err(e) => Err(e),
            },
            Err(e) => Err(e),
        }
    }

    proof fn lemma_parse_advances(s: Seq<u8>) {
    }

    /// Reads the code and looks up its variant.
    fn deserialize<'a>(input: Buffer<'a>) -> (r: IResult<'a, ContentType>) {
        let (input, code) = be_u8(input)?;
        let value = ContentType::try_from(code)?;
        Ok((input, value))
    }
}

impl RoundTrip for ContentType {
    open spec fn decodable(&self) -> bool {
        true
    }

    proof fn lemma_parse_wire(&self, tail: Seq<u8>) {
        let s = self.wire(ByteOrder::BigEndian) + tail;
        assert(s[0] == self.spec_code());
        assert(s.skip(1) =~= tail);
    }
}

impl WireOfView for ContentType {
    proof fn lemma_wire_of_view(&self, other: &ContentType, order: ByteOrder) {
    }
}

/// The protocol version of a record or a hello message.
#[allow(non_camel_case_types)]
#[derive(Clone, Copy, Debug, PartialEq, Eq, Structural)]
pub enum ProtocolVersion {
    SSLv3,
    TLSv1,
    TLSv1_1,
    TLSv1_2,
    TLSv1_3,
}

impl View for ProtocolVersion {
    type V = ProtocolVersion;

    open spec fn view(&self) -> ProtocolVersion {
        *self
    }
}

impl ProtocolVersion {
    /// The wire code of this variant.
    pub open spec fn spec_code(self) -> u16 {
        match self {
            ProtocolVersion::SSLv3 => 0x0300,
            ProtocolVersion::TLSv1 => 0x0301,
            ProtocolVersion::TLSv1_1 => 0x0302,
            ProtocolVersion::TLSv1_2 => 0x0303,
            ProtocolVersion::TLSv1_3 => 0x0304,
        }
    }

    /// The variant whose wire code is `code`, if there is one.
    pub open spec fn from_code(code: u16) -> Option<ProtocolVersion> {
        match code {
            0x0300 => Some(ProtocolVersion::SSLv3),
            0x0301 => Some(ProtocolVersion::TLSv1),
            0x0302 => Some(ProtocolVersion::TLSv1_1),
            0x0303 => Some(ProtocolVersion::TLSv1_2),
            0x0304 => Some(ProtocolVersion::TLSv1_3),
            _ => None,
        }
    }

    /// The variant that `code` stands for, or the error for a code that
    /// stands for none.
    pub open spec fn checked(code: u16) -> Result<ProtocolVersion, Error> {
        match Self::from_code(code) {
            Some(v) => Ok(v),
            None => Err(Error::InvalidValue { kind: Kind::ProtocolVersion, code: code as u16 }),
        }
    }

    /// The wire code of this variant.
    #[verifier::when_used_as_spec(spec_code)]
    pub fn code(self) -> (c: u16)
        ensures
            c == self.spec_code(),
    {
        match self {
            ProtocolVersion::SSLv3 => 0x0300,
            ProtocolVersion::TLSv1 => 0x0301,
            ProtocolVersion::TLSv1_1 => 0x0302,
            ProtocolVersion::TLSv1_2 => 0x0303,
            ProtocolVersion::TLSv1_3 => 0x0304,
        }
    }

    /// The variant whose wire code is `code`; a code that no variant has is an
    /// `InvalidValue` error.
    pub fn try_from(code: u16) -> (r: Result<ProtocolVersion, Error>)
        ensures
            r == Self::checked(code),
    {
        match code {
            0x0300 => Ok(ProtocolVersion::SSLv3),
            0x0301 => Ok(ProtocolVersion::TLSv1),
            0x0302 => Ok(ProtocolVersion::TLSv1_1),
            0x0303 => Ok(ProtocolVersion::TLSv1_2),
            0x0304 => Ok(ProtocolVersion::TLSv1_3),
            _ => Err(Error::InvalidValue { kind: Kind::ProtocolVersion, code: code as u16 }),
        }
    }

    /// Looking up the code of a variant gives the variant back.
    pub proof fn lemma_from_code_of_code(self)
        ensures
            Self::from_code(self.spec_code()) == Some(self),
    {
    }

    /// A code stands for a variant exactly if it is the code of that variant.
    pub proof fn lemma_code_of_from_code(code: u16, v: ProtocolVersion)
        ensures
            Self::from_code(code) == Some(v) <==> v.spec_code() == code,
    {
    }
}

impl Serialize for ProtocolVersion {
    open spec fn wire(&self, order: ByteOrder) -> Seq<u8> {
        int_bytes(self.spec_code() as int, 2, order)
    }

    proof fn lemma_wire_len(&self, a: ByteOrder, b: ByteOrder) {
        lemma_int_bytes_len(self.spec_code() as int, 2, a);
        lemma_int_bytes_len(self.spec_code() as int, 2, b);
    }

    fn serialize(&self, serializer: &mut Serializer) {
        serializer.serialize_u16(self.code());
    }
}

impl Deserialize for ProtocolVersion {
    /// The variant for the code in the first two bytes of `s`.
    open spec fn parse(s: Seq<u8>) -> Parsed<ProtocolVersion> {
        match parse_u16(s) {
            Ok((code, rest)) => match Self::checked(code) {
                Ok(v) => Ok((v, rest)),
                Err(e) => Err(e),
            },
            Err(e) => Err(e),
        }
    }

    proof fn lemma_parse_advances(s: Seq<u8>) {
    }

    /// Reads the code and looks up its variant.
    fn deserialize<'a>(input: Buffer<'a>) -> (r: IResult<'a, ProtocolVersion>) {
        let (input, code) = be_u16(input)?;
        let value = ProtocolVersion::try_from(code)?;
        Ok((input, value))
    }
}

impl RoundTrip for ProtocolVersion {
    open spec fn decodable(&self) -> bool {
        true
    }

    proof fn lemma_parse_wire(&self, tail: Seq<u8>) {
        let s = self.wire(ByteOrder::BigEndian) + tail;
        let code = self.spec_code() as int;
        lemma_int_bytes_len(code, 2, ByteOrder::BigEndian);
        lemma_be_value_of_be_bytes(code);
        assert(s.take(2) =~= be_bytes(code, 2));
        assert(s.skip(2) =~= tail);
    }
}

impl WireOfView for ProtocolVersion {
    proof fn lemma_wire_of_view(&self, other: &ProtocolVersion, order: ByteOrder) {
    }
}

/// The one message of the change-cipher-spec protocol.
#[derive(Clone, Copy, Debug, PartialEq, Eq, Structural)]
pub enum ChangeCipherSpec {
    ChangeCipherSpec,
}

impl View for ChangeCipherSpec {
    type V = ChangeCipherSpec;

    open spec fn view(&self) -> ChangeCipherSpec {
        *self
    }
}

impl ChangeCipherSpec {
    /// The wire code of this variant.
    pub open spec fn spec_code(self) -> u8 {
        match self {
            ChangeCipherSpec::ChangeCipherSpec => 1,
        }
    }

    /// The variant whose wire code is `code`, if there is one.
    pub open spec fn from_code(code: u8) -> Option<ChangeCipherSpec> {
        match code {
            1 => Some(ChangeCipherSpec::ChangeCipherSpec),
            _ => None,
        }
    }

    /// The variant that `code` stands for, or the error for a code that
    /// stands for none.
    pub open spec fn checked(code: u8) -> Result<ChangeCipherSpec, Error> {
        match Self::from_code(code) {
            Some(v) => Ok(v),
            None => Err(Error::InvalidValue { kind: Kind::ChangeCipherSpec, code: code as u16 }),
        }
    }

    /// The wire code of this variant.
    #[verifier::when_used_as_spec(spec_code)]
    pub fn code(self) -> (c: u8)
        ensures
            c == self.spec_code(),
    {
        match self {
            ChangeCipherSpec::ChangeCipherSpec => 1,
        }
    }

    /// The variant whose wire code is `code`; a code that no variant has is an
    /// `InvalidValue` error.
    pub fn try_from(code: u8) -> (r: Result<ChangeCipherSpec, Error>)
        ensures
            r == Self::checked(code),
    {
        match code {
            1 => Ok(ChangeCipherSpec::ChangeCipherSpec),
            _ => Err(Error::InvalidValue { kind: Kind::ChangeCipherSpec, code: code as u16 }),
        }
    }

    /// Looking up the code of a variant gives the variant back.
    pub proof fn lemma_from_code_of_code(self)
        ensures
            Self::from_code(self.spec_code()) == Some(self),
    {
    }

    /// A code stands for a variant exactly if it is the code of that variant.
    pub proof fn lemma_code_of_from_code(code: u8, v: ChangeCipherSpec)
        ensures
            Self::from_code(code) == Some(v) <==> v.spec_code() == code,
    {
    }
}

impl Serialize for ChangeCipherSpec {
    open spec fn wire(&self, order: ByteOrder) -> Seq<u8> {
        seq![self.spec_code()]
    }

    proof fn lemma_wire_len(&self, a: ByteOrder, b: ByteOrder) {
    }

    fn serialize(&self, serializer: &mut Serializer) {
        serializer.serialize_u8(self.code());
    }
}

impl Deserialize for ChangeCipherSpec {
    /// The variant for the code in the first byte of `s`.
    open spec fn parse(s: Seq<u8>) -> Parsed<ChangeCipherSpec> {
        match parse_u8(s) {
            Ok((code, rest)) => match Self::checked(code) {
                Ok(v) => Ok((v, rest)),
                Err(e) => Err(e),
            },
            Err(e) => Err(e),
        }
    }

    proof fn lemma_parse_advances(s: Seq<u8>) {
    }

    /// Reads the code and looks up its variant.
    fn deserialize<'a>(input: Buffer<'a>) -> (r: IResult<'a, ChangeCipherSpec>) {
        let (input, code) = be_u8(input)?;
        let value = ChangeCipherSpec::try_from(code)?;
        Ok((input, value))
    }
}

impl RoundTrip for ChangeCipherSpec {
    open spec fn decodable(&self) -> bool {
        true
    }

    proof fn lemma_parse_wire(&self, tail: Seq<u8>) {
        let s = self.wire(ByteOrder::BigEndian) + tail;
        assert(s[0] == self.spec_code());
        assert(s.skip(1) =~= tail);
    }
}

impl WireOfView for ChangeCipherSpec {
    proof fn lemma_wire_of_view(&self, other: &ChangeCipherSpec, order: ByteOrder) {
    }
}

/// How severe an alert is.
#[derive(Clone, Copy, Debug, PartialEq, Eq, Structural)]
pub enum AlertLevel {
    Warning,
    Fatal,
}

impl View for AlertLevel {
    type V = AlertLevel;

    open spec fn view(&self) -> AlertLevel {
        *self
    }
}

impl AlertLevel {
    /// The wire code of this variant.
    pub open spec fn spec_code(self) -> u8 {
        match self {
            AlertLevel::Warning => 1,
            AlertLevel::Fatal => 2,
        }
    }

    /// The variant whose wire code is `code`, if there is one.
    pub open spec fn from_code(code: u8) -> Option<AlertLevel> {
        match code {
            1 => Some(AlertLevel::Warning),
            2 => Some(AlertLevel::Fatal),
            _ => None,
        }
    }

    /// The variant that `code` stands for, or the error for a code that
    /// stands for none.
    pub open spec fn checked(code: u8) -> Result<AlertLevel, Error> {
        match Self::from_code(code) {
            Some(v) => Ok(v),
            None => Err(Error::InvalidValue { kind: Kind::AlertLevel, code: code as u16 }),
        }
    }

    /// The wire code of this variant.
    #[verifier::when_used_as_spec(spec_code)]
    pub fn code(self) -> (c: u8)
        ensures
            c == self.spec_code(),
    {
        match self {
            AlertLevel::Warning => 1,
            AlertLevel::Fatal => 2,
        }
    }

    /// The variant whose wire code is `code`; a code that no variant has is an
    /// `InvalidValue` error.
    pub fn try_from(code: u8) -> (r: Result<AlertLevel, Error>)
        ensures
            r == Self::checked(code),
    {
        match code {
            1 => Ok(AlertLevel::Warning),
            2 => Ok(AlertLevel::Fatal),
            _ => Err(Error::InvalidValue { kind: Kind::AlertLevel, code: code as u16 }),
        }
    }

    /// Looking up the code of a variant gives the variant back.
    pub proof fn lemma_from_code_of_code(self)
        ensures
            Self::from_code(self.spec_code()) == Some(self),
    {
    }

    /// A code stands for a variant exactly if it is the code of that variant.
    pub proof fn lemma_code_of_from_code(code: u8, v: AlertLevel)
        ensures
            Self::from_code(code) == Some(v) <==> v.spec_code() == code,
    {
    }
}

impl Serialize for AlertLevel {
    open spec fn wire(&self, order: ByteOrder) -> Seq<u8> {
        seq![self.spec_code()]
    }

    proof fn lemma_wire_len(&self, a: ByteOrder, b: ByteOrder) {
    }

    fn serialize(&self, serializer: &mut Serializer) {
        serializer.serialize_u8(self.code());
    }
}

impl Deserialize for AlertLevel {
    /// The variant for the code in the first byte of `s`.
    open spec fn parse(s: Seq<u8>) -> Parsed<AlertLevel> {
        match parse_u8(s) {
            Ok((code, rest)) => match Self::checked(code) {
                Ok(v) => Ok((v, rest)),
                Err(e) => Err(e),
            },
            Err(e) => Err(e),
        }
    }

    proof fn lemma_parse_advances(s: Seq<u8>) {
    }

    /// Reads the code and looks up its variant.
    fn deserialize<'a>(input: Buffer<'a>) -> (r: IResult<'a, AlertLevel>) {
        let (input, code) = be_u8(input)?;
        let value = AlertLevel::try_from(code)?;
        Ok((input, value))
    }
}

impl RoundTrip for AlertLevel {
    open spec fn decodable(&self) -> bool {
        true
    }

    proof fn lemma_parse_wire(&self, tail: Seq<u8>) {
        let s = self.wire(ByteOrder::BigEndian) + tail;
        assert(s[0] == self.spec_code());
        assert(s.skip(1) =~= tail);
    }
}

impl WireOfView for AlertLevel {
    proof fn lemma_wire_of_view(&self, other: &AlertLevel, order: ByteOrder) {
    }
}

/// What an alert reports.
#[derive(Clone, Copy, Debug, PartialEq, Eq, Structural)]
pub enum AlertDescription {
    CloseNotify,
    UnexpectedMessage,
    BadRecordMac,
    DecryptionFailedReserved,
    RecordOverflow,
    DecompressionFailureReserved,
    HandshakeFailure,
    NoCertificateReserved,
    BadCertificate,
    UnsupportedCertificate,
    CertificateRevoked,
    CertificateExpired,
    CertificateUnknown,
    IllegalParameter,
    UnknownCa,
    AccessDenied,
    DecodeError,
    DecryptError,
    ExportRestrictionReserved,
    ProtocolVersion,
    InsufficientSecurity,
    InternalError,
    InappropriateFallback,
    UserCanceled,
    NoRenegotiationReserved,
    MissingExtension,
    UnsupportedExtension,
    CertificateUnobtainableReserved,
    UnrecognizedName,
    BadCertificateStatusResponse,
    BadCertificateHashValueReserved,
    UnknownPskIdentity,
    CertificateRequired,
    NoApplicationProtocol,
}

impl View for AlertDescription {
    type V = AlertDescription;

    open spec fn view(&self) -> AlertDescription {
        *self
    }
}

impl AlertDescription {
    /// The wire code of this variant.
    pub open spec fn spec_code(self) -> u8 {
        match self {
            AlertDescription::CloseNotify => 0,
            AlertDescription::UnexpectedMessage => 10,
            AlertDescription::BadRecordMac => 20,
            AlertDescription::DecryptionFailedReserved => 21,
            AlertDescription::RecordOverflow => 22,
            AlertDescription::DecompressionFailureReserved => 30,
            AlertDescription::HandshakeFailure => 40,
            AlertDescription::NoCertificateReserved => 41,
            AlertDescription::BadCertificate => 42,
            AlertDescription::UnsupportedCertificate => 43,
            AlertDescription::CertificateRevoked => 44,
            AlertDescription::CertificateExpired => 45,
            AlertDescription::CertificateUnknown => 46,
            AlertDescription::IllegalParameter => 47,
            AlertDescription::UnknownCa => 48,
            AlertDescription::AccessDenied => 49,
            AlertDescription::DecodeError => 50,
            AlertDescription::DecryptError => 51,
            AlertDescription::ExportRestrictionReserved => 60,
            AlertDescription::ProtocolVersion => 70,
            AlertDescription::InsufficientSecurity => 71,
            AlertDescription::InternalError => 80,
            AlertDescription::InappropriateFallback => 86,
            AlertDescription::UserCanceled => 90,
            AlertDescription::NoRenegotiationReserved => 100,
            AlertDescription::MissingExtension => 109,
            AlertDescription::UnsupportedExtension => 110,
            AlertDescription::CertificateUnobtainableReserved => 111,
            AlertDescription::UnrecognizedName => 112,
            AlertDescription::BadCertificateStatusResponse => 113,
            AlertDescription::BadCertificateHashValueReserved => 114,
            AlertDescription::UnknownPskIdentity => 115,
            AlertDescription::CertificateRequired => 116,
            AlertDescription::NoApplicationProtocol => 120,
        }
    }

    /// The variant whose wire code is `code`, if there is one.
    pub open spec fn from_code(code: u8) -> Option<AlertDescription> {
        match code {
            0 => Some(AlertDescription::CloseNotify),
            10 => Some(AlertDescription::UnexpectedMessage),
            20 => Some(AlertDescription::BadRecordMac),
            21 => Some(AlertDescription::DecryptionFailedReserved),
            22 => Some(AlertDescription::RecordOverflow),
            30 => Some(AlertDescription::DecompressionFailureReserved),
            40 => Some(AlertDescription::HandshakeFailure),
            41 => Some(AlertDescription::NoCertificateReserved),
            42 => Some(AlertDescription::BadCertificate),
            43 => Some(AlertDescription::UnsupportedCertificate),
            44 => Some(AlertDescription::CertificateRevoked),
            45 => Some(AlertDescription::CertificateExpired),
            46 => Some(AlertDescription::CertificateUnknown),
            47 => Some(AlertDescription::IllegalParameter),
            48 => Some(AlertDescription::UnknownCa),
            49 => Some(AlertDescription::AccessDenied),
            50 => Some(AlertDescription::DecodeError),
            51 => Some(AlertDescription::DecryptError),
            60 => Some(AlertDescription::ExportRestrictionReserved),
            70 => Some(AlertDescription::ProtocolVersion),
            71 => Some(AlertDescription::InsufficientSecurity),
            80 => Some(AlertDescription::InternalError),
            86 => Some(AlertDescription::InappropriateFallback),
            90 => Some(AlertDescription::UserCanceled),
            100 => Some(AlertDescription::NoRenegotiationReserved),
            109 => Some(AlertDescription::MissingExtension),
            110 => Some(AlertDescription::UnsupportedExtension),
            111 => Some(AlertDescription::CertificateUnobtainableReserved),
            112 => Some(AlertDescription::UnrecognizedName),
            113 => Some(AlertDescription::BadCertificateStatusResponse),
            114 => Some(AlertDescription::BadCertificateHashValueReserved),
            115 => Some(AlertDescription::UnknownPskIdentity),
            116 => Some(AlertDescription::CertificateRequired),
            120 => Some(AlertDescription::NoApplicationProtocol),
            _ => None,
        }
    }

    /// The variant that `code` stands for, or the error for a code that
    /// stands for none.
    pub open spec fn checked(code: u8) -> Result<AlertDescription, Error> {
        match Self::from_code(code) {
            Some(v) => Ok(v),
            None => Err(Error::InvalidValue { kind: Kind::AlertDescription, code: code as u16 }),
        }
    }

    /// The wire code of this variant.
    #[verifier::when_used_as_spec(spec_code)]
    pub fn code(self) -> (c: u8)
        ensures
            c == self.spec_code(),
    {
        match self {
            AlertDescription::CloseNotify => 0,
            AlertDescription::UnexpectedMessage => 10,
            AlertDescription::BadRecordMac => 20,
            AlertDescription::DecryptionFailedReserved => 21,
            AlertDescription::RecordOverflow => 22,
            AlertDescription::DecompressionFailureReserved => 30,
            AlertDescription::HandshakeFailure => 40,
            AlertDescription::NoCertificateReserved => 41,
            AlertDescription::BadCertificate => 42,
            AlertDescription::UnsupportedCertificate => 43,
            AlertDescription::CertificateRevoked => 44,
            AlertDescription::CertificateExpired => 45,
            AlertDescription::CertificateUnknown => 46,
            AlertDescription::IllegalParameter => 47,
            AlertDescription::UnknownCa => 48,
            AlertDescription::AccessDenied => 49,
            AlertDescription::DecodeError => 50,
            AlertDescription::DecryptError => 51,
            AlertDescription::ExportRestrictionReserved => 60,
            AlertDescription::ProtocolVersion => 70,
            AlertDescription::InsufficientSecurity => 71,
            AlertDescription::InternalError => 80,
            AlertDescription::InappropriateFallback => 86,
            AlertDescription::UserCanceled => 90,
            AlertDescription::NoRenegotiationReserved => 100,
            AlertDescription::MissingExtension => 109,
            AlertDescription::UnsupportedExtension => 110,
            AlertDescription::CertificateUnobtainableReserved => 111,
            AlertDescription::UnrecognizedName => 112,
            AlertDescription::BadCertificateStatusResponse => 113,
            AlertDescription::BadCertificateHashValueReserved => 114,
            AlertDescription::UnknownPskIdentity => 115,
            AlertDescription::CertificateRequired => 116,
            AlertDescription::NoApplicationProtocol => 120,
        }
    }

    /// The variant whose wire code is `code`; a code that no variant has is an
    /// `InvalidValue` error.
    pub fn try_from(code: u8) -> (r: Result<AlertDescription, Error>)
        ensures
            r == Self::checked(code),
    {
        match code {
            0 => Ok(AlertDescription::CloseNotify),
            10 => Ok(AlertDescription::UnexpectedMessage),
            20 => Ok(AlertDescription::BadRecordMac),
            21 => Ok(AlertDescription::DecryptionFailedReserved),
            22 => Ok(AlertDescription::RecordOverflow),
            30 => Ok(AlertDescription::DecompressionFailureReserved),
            40 => Ok(AlertDescription::HandshakeFailure),
            41 => Ok(AlertDescription::NoCertificateReserved),
            42 => Ok(AlertDescription::BadCertificate),
            43 => Ok(AlertDescription::UnsupportedCertificate),
            44 => Ok(AlertDescription::CertificateRevoked),
            45 => Ok(AlertDescription::CertificateExpired),
            46 => Ok(AlertDescription::CertificateUnknown),
            47 => Ok(AlertDescription::IllegalParameter),
            48 => Ok(AlertDescription::UnknownCa),
            49 => Ok(AlertDescription::AccessDenied),
            50 => Ok(AlertDescription::DecodeError),
            51 => Ok(AlertDescription::DecryptError),
            60 => Ok(AlertDescription::ExportRestrictionReserved),
            70 => Ok(AlertDescription::ProtocolVersion),
            71 => Ok(AlertDescription::InsufficientSecurity),
            80 => Ok(AlertDescription::InternalError),
            86 => Ok(AlertDescription::InappropriateFallback),
            90 => Ok(AlertDescription::UserCanceled),
            100 => Ok(AlertDescription::NoRenegotiationReserved),
            109 => Ok(AlertDescription::MissingExtension),
            110 => Ok(AlertDescription::UnsupportedExtension),
            111 => Ok(AlertDescription::CertificateUnobtainableReserved),
            112 => Ok(AlertDescription::UnrecognizedName),
            113 => Ok(AlertDescription::BadCertificateStatusResponse),
            114 => Ok(AlertDescription::BadCertificateHashValueReserved),
            115 => Ok(AlertDescription::UnknownPskIdentity),
            116 => Ok(AlertDescription::CertificateRequired),
            120 => Ok(AlertDescription::NoApplicationProtocol),
            _ => Err(Error::InvalidValue { kind: Kind::AlertDescription, code: code as u16 }),
        }
    }

    /// Looking up the code of a variant gives the variant back.
    pub proof fn lemma_from_code_of_code(self)
        ensures
            Self::from_code(self.spec_code()) == Some(self),
    {
    }

    /// A code stands for a variant exactly if it is the code of that variant.
    pub proof fn lemma_code_of_from_code(code: u8, v: AlertDescription)
        ensures
            Self::from_code(code) == Some(v) <==> v.spec_code() == code,
    {
    }
}

impl Serialize for AlertDescription {
    open spec fn wire(&self, order: ByteOrder) -> Seq<u8> {
        seq![self.spec_code()]
    }

    proof fn lemma_wire_len(&self, a: ByteOrder, b: ByteOrder) {
    }

    fn serialize(&self, serializer: &mut Serializer) {
        serializer.serialize_u8(self.code());
    }
}

impl Deserialize for AlertDescription {
    /// The variant for the code in the first byte of `s`.
    open spec fn parse(s: Seq<u8>) -> Parsed<AlertDescription> {
        match parse_u8(s) {
            Ok((code, rest)) => match Self::checked(code) {
                Ok(v) => Ok((v, rest)),
                Err(e) => Err(e),
            },
            Err(e) => Err(e),
        }
    }

    proof fn lemma_parse_advances(s: Seq<u8>) {
    }

    /// Reads the code and looks up its variant.
    fn deserialize<'a>(input: Buffer<'a>) -> (r: IResult<'a, AlertDescription>) {
        let (input, code) = be_u8(input)?;
        let value = AlertDescription::try_from(code)?;
        Ok((input, value))
    }
}

impl RoundTrip for AlertDescription {
    open spec fn decodable(&self) -> bool {
        true
    }

    proof fn lemma_parse_wire(&self, tail: Seq<u8>) {
        let s = self.wire(ByteOrder::BigEndian) + tail;
        assert(s[0] == self.spec_code());
        assert(s.skip(1) =~= tail);
    }
}

impl WireOfView for AlertDescription {
    proof fn lemma_wire_of_view(&self, other: &AlertDescription, order: ByteOrder) {
    }
}

/// Which message a handshake carries.
#[derive(Clone, Copy, Debug, PartialEq, Eq, Structural)]
pub enum HandshakeType {
    HelloRequest,
    ClientHello,
    ServerHello,
    Certificate,
    ServerKeyExchange,
    CertificateRequest,
    ServerHelloDone,
    CertificateVerify,
    ClientKeyExchange,
    Finished,
}

impl View for HandshakeType {
    type V = HandshakeType;

    open spec fn view(&self) -> HandshakeType {
        *self
    }
}

impl HandshakeType {
    /// The wire code of this variant.
    pub open spec fn spec_code(self) -> u8 {
        match self {
            HandshakeType::HelloRequest => 0,
            HandshakeType::ClientHello => 1,
            HandshakeType::ServerHello => 2,
            HandshakeType::Certificate => 11,
            HandshakeType::ServerKeyExchange => 12,
            HandshakeType::CertificateRequest => 13,
            HandshakeType::ServerHelloDone => 14,
            HandshakeType::CertificateVerify => 15,
            HandshakeType::ClientKeyExchange => 16,
            HandshakeType::Finished => 20,
        }
    }

    /// The variant whose wire code is `code`, if there is one.
    pub open spec fn from_code(code: u8) -> Option<HandshakeType> {
        match code {
            0 => Some(HandshakeType::HelloRequest),
            1 => Some(HandshakeType::ClientHello),
            2 => Some(HandshakeType::ServerHello),
            11 => Some(HandshakeType::Certificate),
            12 => Some(HandshakeType::ServerKeyExchange),
            13 => Some(HandshakeType::CertificateRequest),
            14 => Some(HandshakeType::ServerHelloDone),
            15 => Some(HandshakeType::CertificateVerify),
            16 => Some(HandshakeType::ClientKeyExchange),
            20 => Some(HandshakeType::Finished),
            _ => None,
        }
    }

    /// The variant that `code` stands for, or the error for a code that
    /// stands for none.
    pub open spec fn checked(code: u8) -> Result<HandshakeType, Error> {
        match Self::from_code(code) {
            Some(v) => Ok(v),
            None => Err(Error::InvalidValue { kind: Kind::HandshakeType, code: code as u16 }),
        }
    }

    /// The wire code of this variant.
    #[verifier::when_used_as_spec(spec_code)]
    pub fn code(self) -> (c: u8)
        ensures
            c == self.spec_code(),
    {
        match self {
            HandshakeType::HelloRequest => 0,
            HandshakeType::ClientHello => 1,
            HandshakeType::ServerHello => 2,
            HandshakeType::Certificate => 11,
            HandshakeType::ServerKeyExchange => 12,
            HandshakeType::CertificateRequest => 13,
            HandshakeType::ServerHelloDone => 14,
            HandshakeType::CertificateVerify => 15,
            HandshakeType::ClientKeyExchange => 16,
            HandshakeType::Finished => 20,
        }
    }

    /// The variant whose wire code is `code`; a code that no variant has is an
    /// `InvalidValue` error.
    pub fn try_from(code: u8) -> (r: Result<HandshakeType, Error>)
        ensures
            r == Self::checked(code),
    {
        match code {
            0 => Ok(HandshakeType::HelloRequest),
            1 => Ok(HandshakeType::ClientHello),
            2 => Ok(HandshakeType::ServerHello),
            11 => Ok(HandshakeType::Certificate),
            12 => Ok(HandshakeType::ServerKeyExchange),
            13 => Ok(HandshakeType::CertificateRequest),
            14 => Ok(HandshakeType::ServerHelloDone),
            15 => Ok(HandshakeType::CertificateVerify),
            16 => Ok(HandshakeType::ClientKeyExchange),
            20 => Ok(HandshakeType::Finished),
            _ => Err(Error::InvalidValue { kind: Kind::HandshakeType, code: code as u16 }),
        }
    }

    /// Looking up the code of a variant gives the variant back.
    pub proof fn lemma_from_code_of_code(self)
        ensures
            Self::from_code(self.spec_code()) == Some(self),
    {
    }

    /// A code stands for a variant exactly if it is the code of that variant.
    pub proof fn lemma_code_of_from_code(code: u8, v: HandshakeType)
        ensures
            Self::from_code(code) == Some(v) <==> v.spec_code() == code,
    {
    }
}

impl Serialize for HandshakeType {
    open spec fn wire(&self, order: ByteOrder) -> Seq<u8> {
        seq![self.spec_code()]
    }

    proof fn lemma_wire_len(&self, a: ByteOrder, b: ByteOrder) {
    }

    fn serialize(&self, serializer: &mut Serializer) {
        serializer.serialize_u8(self.code());
    }
}

impl Deserialize for HandshakeType {
    /// The variant for the code in the first byte of `s`.
    open spec fn parse(s: Seq<u8>) -> Parsed<HandshakeType> {
        match parse_u8(s) {
            Ok((code, rest)) => match Self::checked(code) {
                Ok(v) => Ok((v, rest)),
                Err(e) => Err(e),
            },
            Err(e) => Err(e),
        }
    }

    proof fn lemma_parse_advances(s: Seq<u8>) {
    }

    /// Reads the code and looks up its variant.
    fn deserialize<'a>(input: Buffer<'a>) -> (r: IResult<'a, HandshakeType>) {
        let (input, code) = be_u8(input)?;
        let value = HandshakeType::try_from(code)?;
        Ok((input, value))
    }
}

impl RoundTrip for HandshakeType {
    open spec fn decodable(&self) -> bool {
        true
    }

    proof fn lemma_parse_wire(&self, tail: Seq<u8>) {
        let s = self.wire(ByteOrder::BigEndian) + tail;
        assert(s[0] == self.spec_code());
        assert(s.skip(1) =~= tail);
    }
}

impl WireOfView for HandshakeType {
    proof fn lemma_wire_of_view(&self, other: &HandshakeType, order: ByteOrder) {
    }
}

/// How records are compressed.
#[derive(Clone, Copy, Debug, PartialEq, Eq, Structural)]
pub enum CompressionMethod {
    Null,
}

impl View for CompressionMethod {
    type V = CompressionMethod;

    open spec fn view(&self) -> CompressionMethod {
        *self
    }
}

impl CompressionMethod {
    /// The wire code of this variant.
    pub open spec fn spec_code(self) -> u8 {
        match self {
            CompressionMethod::Null => 0,
        }
    }

    /// The variant whose wire code is `code`, if there is one.
    pub open spec fn from_code(code: u8) -> Option<CompressionMethod> {
        match code {
            0 => Some(CompressionMethod::Null),
            _ => None,
        }
    }

    /// The variant that `code` stands for, or the error for a code that
    /// stands for none.
    pub open spec fn checked(code: u8) -> Result<CompressionMethod, Error> {
        match Self::from_code(code) {
            Some(v) => Ok(v),
            None => Err(Error::InvalidValue { kind: Kind::CompressionMethod, code: code as u16 }),
        }
    }

    /// The wire code of this variant.
    #[verifier::when_used_as_spec(spec_code)]
    pub fn code(self) -> (c: u8)
        ensures
            c == self.spec_code(),
    {
        match self {
            CompressionMethod::Null => 0,
        }
    }

    /// The variant whose wire code is `code`; a code that no variant has is an
    /// `InvalidValue` error.
    pub fn try_from(code: u8) -> (r: Result<CompressionMethod, Error>)
        ensures
            r == Self::checked(code),
    {
        match code {
            0 => Ok(CompressionMethod::Null),
            _ => Err(Error::InvalidValue { kind: Kind::CompressionMethod, code: code as u16 }),
        }
    }

    /// Looking up the code of a variant gives the variant back.
    pub proof fn lemma_from_code_of_code(self)
        ensures
            Self::from_code(self.spec_code()) == Some(self),
    {
    }

    /// A code stands for a variant exactly if it is the code of that variant.
    pub proof fn lemma_code_of_from_code(code: u8, v: CompressionMethod)
        ensures
            Self::from_code(code) == Some(v) <==> v.spec_code() == code,
    {
    }
}

impl Serialize for CompressionMethod {
    open spec fn wire(&self, order: ByteOrder) -> Seq<u8> {
        seq![self.spec_code()]
    }

    proof fn lemma_wire_len(&self, a: ByteOrder, b: ByteOrder) {
    }

    fn serialize(&self, serializer: &mut Serializer) {
        serializer.serialize_u8(self.code());
    }
}

impl Deserialize for CompressionMethod {
    /// The variant for the code in the first byte of `s`.
    open spec fn parse(s: Seq<u8>) -> Parsed<CompressionMethod> {
        match parse_u8(s) {
            Ok((code, rest)) => match Self::checked(code) {
                Ok(v) => Ok((v, rest)),
                Err(e) => Err(e),
            },
            Err(e) => Err(e),
        }
    }

    proof fn lemma_parse_advances(s: Seq<u8>) {
    }

    /// Reads the code and looks up its variant.
    fn deserialize<'a>(input: Buffer<'a>) -> (r: IResult<'a, CompressionMethod>) {
        let (input, code) = be_u8(input)?;
        let value = CompressionMethod::try_from(code)?;
        Ok((input, value))
    }
}

impl RoundTrip for CompressionMethod {
    open spec fn decodable(&self) -> bool {
        true
    }

    proof fn lemma_parse_wire(&self, tail: Seq<u8>) {
        let s = self.wire(ByteOrder::BigEndian) + tail;
        assert(s[0] == self.spec_code());
        assert(s.skip(1) =~= tail);
    }
}

impl WireOfView for CompressionMethod {
    proof fn lemma_wire_of_view(&self, other: &CompressionMethod, order: ByteOrder) {
    }
}

/// Which extension a hello message carries.
#[derive(Clone, Copy, Debug, PartialEq, Eq, Structural)]
pub enum ExtensionType {
    SignatureAlgorithms,
}

impl View for ExtensionType {
    type V = ExtensionType;

    open spec fn view(&self) -> ExtensionType {
        *self
    }
}

impl ExtensionType {
    /// The wire code of this variant.
    pub open spec fn spec_code(self) -> u16 {
        match self {
            ExtensionType::SignatureAlgorithms => 13,
        }
    }

    /// The variant whose wire code is `code`, if there is one.
    pub open spec fn from_code(code: u16) -> Option<ExtensionType> {
        match code {
            13 => Some(ExtensionType::SignatureAlgorithms),
            _ => None,
        }
    }

    /// The variant that `code` stands for, or the error for a code that
    /// stands for none.
    pub open spec fn checked(code: u16) -> Result<ExtensionType, Error> {
        match Self::from_code(code) {
            Some(v) => Ok(v),
            None => Err(Error::InvalidValue { kind: Kind::ExtensionType, code: code as u16 }),
        }
    }

    /// The wire code of this variant.
    #[verifier::when_used_as_spec(spec_code)]
    pub fn code(self) -> (c: u16)
        ensures
            c == self.spec_code(),
    {
        match self {
            ExtensionType::SignatureAlgorithms => 13,
        }
    }

    /// The variant whose wire code is `code`; a code that no variant has is an
    /// `InvalidValue` error.
    pub fn try_from(code: u16) -> (r: Result<ExtensionType, Error>)
        ensures
            r == Self::checked(code),
    {
        match code {
            13 => Ok(ExtensionType::SignatureAlgorithms),
            _ => Err(Error::InvalidValue { kind: Kind::ExtensionType, code: code as u16 }),
        }
    }

    /// Looking up the code of a variant gives the variant back.
    pub proof fn lemma_from_code_of_code(self)
        ensures
            Self::from_code(self.spec_code()) == Some(self),
    {
    }

    /// A code stands for a variant exactly if it is the code of that variant.
    pub proof fn lemma_code_of_from_code(code: u16, v: ExtensionType)
        ensures
            Self::from_code(code) == Some(v) <==> v.spec_code() == code,
    {
    }
}

impl Serialize for ExtensionType {
    open spec fn wire(&self, order: ByteOrder) -> Seq<u8> {
        int_bytes(self.spec_code() as int, 2, order)
    }

    proof fn lemma_wire_len(&self, a: ByteOrder, b: ByteOrder) {
        lemma_int_bytes_len(self.spec_code() as int, 2, a);
        lemma_int_bytes_len(self.spec_code() as int, 2, b);
    }

    fn serialize(&self, serializer: &mut Serializer) {
        serializer.serialize_u16(self.code());
    }
}

impl Deserialize for ExtensionType {
    /// The variant for the code in the first two bytes of `s`.
    open spec fn parse(s: Seq<u8>) -> Parsed<ExtensionType> {
        match parse_u16(s) {
            Ok((code, rest)) => match Self::checked(code) {
                Ok(v) => Ok((v, rest)),
                Err(e) => Err(e),
            },
            Err(e) => Err(e),
        }
    }

    proof fn lemma_parse_advances(s: Seq<u8>) {
    }

    /// Reads the code and looks up its variant.
    fn deserialize<'a>(input: Buffer<'a>) -> (r: IResult<'a, ExtensionType>) {
        let (input, code) = be_u16(input)?;
        let value = ExtensionType::try_from(code)?;
        Ok((input, value))
    }
}

impl RoundTrip for ExtensionType {
    open spec fn decodable(&self) -> bool {
        true
    }

    proof fn lemma_parse_wire(&self, tail: Seq<u8>) {
        let s = self.wire(ByteOrder::BigEndian) + tail;
        let code = self.spec_code() as int;
        lemma_int_bytes_len(code, 2, ByteOrder::BigEndian);
        lemma_be_value_of_be_bytes(code);
        assert(s.take(2) =~= be_bytes(code, 2));
        assert(s.skip(2) =~= tail);
    }
}

impl WireOfView for ExtensionType {
    proof fn lemma_wire_of_view(&self, other: &ExtensionType, order: ByteOrder) {
    }
}

/// The hash of a signature algorithm pair.
#[derive(Clone, Copy, Debug, PartialEq, Eq, Structural)]
pub enum HashAlgorithm {
    NONE,
    MD5,
    SHA1,
    SHA224,
    SHA256,
    SHA384,
    SHA512,
}

impl View for HashAlgorithm {
    type V = HashAlgorithm;

    open spec fn view(&self) -> HashAlgorithm {
        *self
    }
}

impl HashAlgorithm {
    /// The wire code of this variant.
    pub open spec fn spec_code(self) -> u8 {
        match self {
            HashAlgorithm::NONE => 0,
            HashAlgorithm::MD5 => 1,
            HashAlgorithm::SHA1 => 2,
            HashAlgorithm::SHA224 => 3,
            HashAlgorithm::SHA256 => 4,
            HashAlgorithm::SHA384 => 5,
            HashAlgorithm::SHA512 => 6,
        }
    }

    /// The variant whose wire code is `code`, if there is one.
    pub open spec fn from_code(code: u8) -> Option<HashAlgorithm> {
        match code {
            0 => Some(HashAlgorithm::NONE),
            1 => Some(HashAlgorithm::MD5),
            2 => Some(HashAlgorithm::SHA1),
            3 => Some(HashAlgorithm::SHA224),
            4 => Some(HashAlgorithm::SHA256),
            5 => Some(HashAlgorithm::SHA384),
            6 => Some(HashAlgorithm::SHA512),
            _ => None,
        }
    }

    /// The variant that `code` stands for, or the error for a code that
    /// stands for none.
    pub open spec fn checked(code: u8) -> Result<HashAlgorithm, Error> {
        match Self::from_code(code) {
            Some(v) => Ok(v),
            None => Err(Error::InvalidValue { kind: Kind::HashAlgorithm, code: code as u16 }),
        }
    }

    /// The wire code of this variant.
    #[verifier::when_used_as_spec(spec_code)]
    pub fn code(self) -> (c: u8)
        ensures
            c == self.spec_code(),
    {
        match self {
            HashAlgorithm::NONE => 0,
            HashAlgorithm::MD5 => 1,
            HashAlgorithm::SHA1 => 2,
            HashAlgorithm::SHA224 => 3,
            HashAlgorithm::SHA256 => 4,
            HashAlgorithm::SHA384 => 5,
            HashAlgorithm::SHA512 => 6,
        }
    }

    /// The variant whose wire code is `code`; a code that no variant has is an
    /// `InvalidValue` error.
    pub fn try_from(code: u8) -> (r: Result<HashAlgorithm, Error>)
        ensures
            r == Self::checked(code),
    {
        match code {
            0 => Ok(HashAlgorithm::NONE),
            1 => Ok(HashAlgorithm::MD5),
            2 => Ok(HashAlgorithm::SHA1),
            3 => Ok(HashAlgorithm::SHA224),
            4 => Ok(HashAlgorithm::SHA256),
            5 => Ok(HashAlgorithm::SHA384),
            6 => Ok(HashAlgorithm::SHA512),
            _ => Err(Error::InvalidValue { kind: Kind::HashAlgorithm, code: code as u16 }),
        }
    }

    /// Looking up the code of a variant gives the variant back.
    pub proof fn lemma_from_code_of_code(self)
        ensures
            Self::from_code(self.spec_code()) == Some(self),
    {
    }

    /// A code stands for a variant exactly if it is the code of that variant.
    pub proof fn lemma_code_of_from_code(code: u8, v: HashAlgorithm)
        ensures
            Self::from_code(code) == Some(v) <==> v.spec_code() == code,
    {
    }
}

impl Serialize for HashAlgorithm {
    open spec fn wire(&self, order: ByteOrder) -> Seq<u8> {
        seq![self.spec_code()]
    }

    proof fn lemma_wire_len(&self, a: ByteOrder, b: ByteOrder) {
    }

    fn serialize(&self, serializer: &mut Serializer) {
        serializer.serialize_u8(self.code());
    }
}

impl Deserialize for HashAlgorithm {
    /// The variant for the code in the first byte of `s`.
    open spec fn parse(s: Seq<u8>) -> Parsed<HashAlgorithm> {
        match parse_u8(s) {
            Ok((code, rest)) => match Self::checked(code) {
                Ok(v) => Ok((v, rest)),
                Err(e) => Err(e),
            },
            Err(e) => Err(e),
        }
    }

    proof fn lemma_parse_advances(s: Seq<u8>) {
    }

    /// Reads the code and looks up its variant.
    fn deserialize<'a>(input: Buffer<'a>) -> (r: IResult<'a, HashAlgorithm>) {
        let (input, code) = be_u8(input)?;
        let value = HashAlgorithm::try_from(code)?;
        Ok((input, value))
    }
}

impl RoundTrip for HashAlgorithm {
    open spec fn decodable(&self) -> bool {
        true
    }

    proof fn lemma_parse_wire(&self, tail: Seq<u8>) {
        let s = self.wire(ByteOrder::BigEndian) + tail;
        assert(s[0] == self.spec_code());
        assert(s.skip(1) =~= tail);
    }
}

impl WireOfView for HashAlgorithm {
    proof fn lemma_wire_of_view(&self, other: &HashAlgorithm, order: ByteOrder) {
    }
}

/// The signature of a signature algorithm pair.
#[derive(Clone, Copy, Debug, PartialEq, Eq, Structural)]
pub enum SignatureAlgorithm {
    Anonymous,
    RSA,
    DSA,
    ECDSA,
}

impl View for SignatureAlgorithm {
    type V = SignatureAlgorithm;

    open spec fn view(&self) -> SignatureAlgorithm {
        *self
    }
}

impl SignatureAlgorithm {
    /// The wire code of this variant.
    pub open spec fn spec_code(self) -> u8 {
        match self {
            SignatureAlgorithm::Anonymous => 0,
            SignatureAlgorithm::RSA => 1,
            SignatureAlgorithm::DSA => 2,
            SignatureAlgorithm::ECDSA => 3,
        }
    }

    /// The variant whose wire code is `code`, if there is one.
    pub open spec fn from_code(code: u8) -> Option<SignatureAlgorithm> {
        match code {
            0 => Some(SignatureAlgorithm::Anonymous),
            1 => Some(SignatureAlgorithm::RSA),
            2 => Some(SignatureAlgorithm::DSA),
            3 => Some(SignatureAlgorithm::ECDSA),
            _ => None,
        }
    }

    /// The variant that `code` stands for, or the error for a code that
    /// stands for none.
    pub open spec fn checked(code: u8) -> Result<SignatureAlgorithm, Error> {
        match Self::from_code(code) {
            Some(v) => Ok(v),
            None => Err(Error::InvalidValue { kind: Kind::SignatureAlgorithm, code: code as u16 }),
        }
    }

    /// The wire code of this variant.
    #[verifier::when_used_as_spec(spec_code)]
    pub fn code(self) -> (c: u8)
        ensures
            c == self.spec_code(),
    {
        match self {
            SignatureAlgorithm::Anonymous => 0,
            SignatureAlgorithm::RSA => 1,
            SignatureAlgorithm::DSA => 2,
            SignatureAlgorithm::ECDSA => 3,
        }
    }

    /// The variant whose wire code is `code`; a code that no variant has is an
    /// `InvalidValue` error.
    pub fn try_from(code: u8) -> (r: Result<SignatureAlgorithm, Error>)
        ensures
            r == Self::checked(code),
    {
        match code {
            0 => Ok(SignatureAlgorithm::Anonymous),
            1 => Ok(SignatureAlgorithm::RSA),
            2 => Ok(SignatureAlgorithm::DSA),
            3 => Ok(SignatureAlgorithm::ECDSA),
            _ => Err(Error::InvalidValue { kind: Kind::SignatureAlgorithm, code: code as u16 }),
        }
    }

    /// Looking up the code of a variant gives the variant back.
    pub proof fn lemma_from_code_of_code(self)
        ensures
            Self::from_code(self.spec_code()) == Some(self),
    {
    }

    /// A code stands for a variant exactly if it is the code of that variant.
    pub proof fn lemma_code_of_from_code(code: u8, v: SignatureAlgorithm)
        ensures
            Self::from_code(code) == Some(v) <==> v.spec_code() == code,
    {
    }
}

impl Serialize for SignatureAlgorithm {
    open spec fn wire(&self, order: ByteOrder) -> Seq<u8> {
        seq![self.spec_code()]
    }

    proof fn lemma_wire_len(&self, a: ByteOrder, b: ByteOrder) {
    }

    fn serialize(&self, serializer: &mut Serializer) {
        serializer.serialize_u8(self.code());
    }
}

impl Deserialize for SignatureAlgorithm {
    /// The variant for the code in the first byte of `s`.
    open spec fn parse(s: Seq<u8>) -> Parsed<SignatureAlgorithm> {
        match parse_u8(s) {
            Ok((code, rest)) => match Self::checked(code) {
                Ok(v) => Ok((v, rest)),
                Err(e) => Err(e),
            },
            Err(e) => Err(e),
        }
    }

    proof fn lemma_parse_advances(s: Seq<u8>) {
    }

    /// Reads the code and looks up its variant.
    fn deserialize<'a>(input: Buffer<'a>) -> (r: IResult<'a, SignatureAlgorithm>) {
        let (input, code) = be_u8(input)?;
        let value = SignatureAlgorithm::try_from(code)?;
        Ok((input, value))
    }
}

impl RoundTrip for SignatureAlgorithm {
    open spec fn decodable(&self) -> bool {
        true
    }

    proof fn lemma_parse_wire(&self, tail: Seq<u8>) {
        let s = self.wire(ByteOrder::BigEndian) + tail;
        assert(s[0] == self.spec_code());
        assert(s.skip(1) =~= tail);
    }
}

impl WireOfView for SignatureAlgorithm {
    proof fn lemma_wire_of_view(&self, other: &SignatureAlgorithm, order: ByteOrder) {
    }
}

} // verus!
