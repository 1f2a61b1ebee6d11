//! The TLS record layer and its vocabulary of wire types.

pub mod cipher_suite;
pub mod codes;
pub mod de;
pub mod framing;
pub mod handshake;
pub mod hello_message;
pub mod round_trip;
pub mod uint24;
pub mod vector;

pub use crate::error::{Error, Kind};
pub use cipher_suite::CipherSuite;
pub use codes::{
    AlertDescription, AlertLevel, ChangeCipherSpec, CompressionMethod, ContentType, ExtensionType,
    HandshakeType, HashAlgorithm, ProtocolVersion, SignatureAlgorithm,
};
pub use de::{Buffer, Deserialize, IResult, be_u16, be_u32, be_u8, take};
pub use handshake::{Certificate, ClientKeyExchange, Handshake, HandshakeBody, PreMasterSecret};
pub use hello_message::{
    CipherSuites, ClientHello, CompressionMethods, Extension, ExtensionData, Extensions, Random,
    ServerHello, SignatureAndHashAlgorithm,
};
pub use uint24::u24;
pub use vector::{Opaque, Vector};

use vstd::prelude::*;
use crate::endian::ByteOrder;
use crate::ser::{Serialize, Serializer, bytes_size};
use de::{Parsed, deserialize_exactly, parse_exactly, parse_take, parse_u16};
use handshake::HandshakeView;
use vector::view_seq;

verus! {

/// A notice of a closure or an error: how severe it is and what it reports.
#[derive(Debug, Clone, Copy, PartialEq, Eq, Structural)]
pub struct Alert {
    pub level: AlertLevel,
    pub description: AlertDescription,
}

impl View for Alert {
    type V = Alert;

    open spec fn view(&self) -> Alert {
        *self
    }
}

/// What `Alert::deserialize` finds at the start of `s`: the level, then the
/// description, one byte each.
pub open spec fn parse_alert(s: Seq<u8>) -> Parsed<Alert> {
    match AlertLevel::parse(s) {
        Ok((level, rest)) => match AlertDescription::parse(rest) {
            Ok((description, rest)) => Ok((Alert { level, description }, rest)),
            Err(e) => Err(e),
        },
        Err(e) => Err(e),
    }
}

impl Deserialize for Alert {
    open spec fn parse(s: Seq<u8>) -> Parsed<Alert> {
        parse_alert(s)
    }

    proof fn lemma_parse_advances(s: Seq<u8>) {
    }

    /// Reads the level and the description.
    fn deserialize<'a>(input: Buffer<'a>) -> (r: IResult<'a, Alert>) {
        let (input, level) = be_u8(input)?;
        let level = AlertLevel::try_from(level)?;
        let (input, description) = be_u8(input)?;
        let description = AlertDescription::try_from(description)?;
        Ok((input, Alert { level, description }))
    }
}

impl Serialize for Alert {
    open spec fn wire(&self, order: ByteOrder) -> Seq<u8> {
        self.level.wire(order) + self.description.wire(order)
    }

    proof fn lemma_wire_len(&self, a: ByteOrder, b: ByteOrder) {
    }

    fn serialize(&self, serializer: &mut Serializer) {
        let ghost order = serializer.order();
        serializer.serialize_field(&self.level);
        serializer.serialize_field(&self.description);
        assert(serializer@ =~= old(serializer)@ + self.wire(order));
    }
}

/// The payload of a record, by kind. Its kind is not part of its bytes: the
/// record that holds it names the kind in a field of its own.
#[derive(Debug, PartialEq, Eq)]
pub enum Fragment {
    Handshake(Handshake),
    ChangeCipherSpec(ChangeCipherSpec),
    Alert(Alert),
}

/// The mathematical value of a `Fragment`.
#[verifier::ext_equal]
pub enum FragmentView {
    Handshake(HandshakeView),
    ChangeCipherSpec(ChangeCipherSpec),
    Alert(Alert),
}

impl View for Fragment {
    type V = FragmentView;

    open spec fn view(&self) -> FragmentView {
        match self {
            Fragment::Handshake(handshake) => FragmentView::Handshake(handshake@),
            Fragment::ChangeCipherSpec(spec) => FragmentView::ChangeCipherSpec(*spec),
            Fragment::Alert(alert) => FragmentView::Alert(*alert),
        }
    }
}

impl Fragment {
    /// The content type that announces a fragment of this kind.
    pub open spec fn spec_content_type(&self) -> ContentType {
        match self {
            Fragment::Handshake(_) => ContentType::Handshake,
            Fragment::ChangeCipherSpec(_) => ContentType::ChangeCipherSpec,
            Fragment::Alert(_) => ContentType::Alert,
        }
    }

    /// The content type that announces a fragment of this kind.
    #[verifier::when_used_as_spec(spec_content_type)]
    pub fn content_type(&self) -> (t: ContentType)
        ensures
            t == self.spec_content_type(),
    {
        match self {
            Fragment::Handshake(_) => ContentType::Handshake,
            Fragment::ChangeCipherSpec(_) => ContentType::ChangeCipherSpec,
            Fragment::Alert(_) => ContentType::Alert,
        }
    }
}

impl Serialize for Fragment {
    open spec fn wire(&self, order: ByteOrder) -> Seq<u8> {
        match self {
            Fragment::Handshake(handshake) => handshake.wire(order),
            Fragment::ChangeCipherSpec(spec) => spec.wire(order),
            Fragment::Alert(alert) => alert.wire(order),
        }
    }

    proof fn lemma_wire_len(&self, a: ByteOrder, b: ByteOrder) {
        match self {
            Fragment::Handshake(handshake) => handshake.lemma_wire_len(a, b),
            Fragment::ChangeCipherSpec(spec) => spec.lemma_wire_len(a, b),
            Fragment::Alert(alert) => alert.lemma_wire_len(a, b),
        }
    }

    fn serialize(&self, serializer: &mut Serializer) {
        match self {
            Fragment::Handshake(handshake) => serializer.serialize_newtype_variant(handshake),
            Fragment::ChangeCipherSpec(spec) => serializer.serialize_newtype_variant(spec),
            Fragment::Alert(alert) => serializer.serialize_newtype_variant(alert),
        }
    }
}

/// The outermost unit on the wire: the content type, the protocol version, the
/// length of the fragment in bytes, and the fragment.
#[derive(Debug, PartialEq, Eq)]
pub struct TLSRecord {
    pub content_type: ContentType,
    pub protocol_version: ProtocolVersion,
    pub length: u16,
    pub fragment: Fragment,
}

/// The mathematical value of a `TLSRecord`.
#[verifier::ext_equal]
pub struct TLSRecordView {
    pub content_type: ContentType,
    pub protocol_version: ProtocolVersion,
    pub length: u16,
    pub fragment: FragmentView,
}

impl View for TLSRecord {
    type V = TLSRecordView;

    open spec fn view(&self) -> TLSRecordView {
        TLSRecordView {
            content_type: self.content_type,
            protocol_version: self.protocol_version,
            length: self.length,
            fragment: self.fragment@,
        }
    }
}

/// The fragment that `TLSRecord::deserialize` finds in the bytes `s` that the
/// length field sets apart for it, by content type. The fragment fills `s`
/// exactly: bytes that it leaves unread are a `LengthMismatch`. Application
/// data is not decoded.
pub open spec fn parse_fragment(content_type: ContentType, s: Seq<u8>) -> Result<
    FragmentView,
    Error,
> {
    match content_type {
        ContentType::Handshake => match parse_exactly::<Handshake>(s) {
            Ok(handshake) => Ok(FragmentView::Handshake(handshake)),
            Err(e) => Err(e),
        },
        ContentType::ChangeCipherSpec => match parse_exactly::<ChangeCipherSpec>(s) {
            Ok(spec) => Ok(FragmentView::ChangeCipherSpec(spec)),
            Err(e) => Err(e),
        },
        ContentType::Alert => match parse_exactly::<Alert>(s) {
            Ok(alert) => Ok(FragmentView::Alert(alert)),
            Err(e) => Err(e),
        },
        ContentType::ApplicationData => Err(Error::Unimplemented { kind: Kind::ContentType }),
    }
}

/// What `TLSRecord::deserialize` finds at the start of `s`: the content type,
/// the version, a length of two bytes, and in the bytes that the length sets
/// apart the fragment.
pub open spec fn parse_record(s: Seq<u8>) -> Parsed<TLSRecordView> {
    match ContentType::parse(s) {
        Ok((content_type, rest)) => match ProtocolVersion::parse(rest) {
            Ok((protocol_version, rest)) => match parse_u16(rest) {
                Ok((length, rest)) => match parse_take(rest, length as nat) {
                    Ok((bytes, rest)) => match parse_fragment(content_type, bytes) {
                        Ok(fragment) => Ok(
                            (
                                TLSRecordView { content_type, protocol_version, length, fragment },
                                rest,
                            ),
                        ),
                        Err(e) => Err(e),
                    },
                    Err(e) => Err(e),
                },
                Err(e) => Err(e),
            },
            Err(e) => Err(e),
        },
        Err(e) => Err(e),
    }
}

/// A record that is found at the start of `s` takes at least its five bytes of
/// header, and ends within `s`.
pub proof fn lemma_parse_record_consumes(s: Seq<u8>)
    ensures
        match parse_record(s) {
            Ok((record, rest)) => s.len() >= 5 + record.length && rest == s.skip(
                5 + record.length,
            ),
            Err(_) => true,
        },
{
    match parse_record(s) {
        Ok((record, rest)) => {
            assert(rest =~= s.skip(5 + record.length));
        },
        Err(_) => {},
    }
}

/// What `deserialize_tls_record` finds in `s`: the records that follow one
/// another from its start, up to the end of `s` or to the first that cannot be
/// decoded, and in that case the error.
pub open spec fn parse_records(s: Seq<u8>) -> (Seq<TLSRecordView>, Option<Error>)
    decreases s.len(),
    via parse_records_decreases
{
    if s.len() == 0 {
        (Seq::empty(), None)
    } else {
        match parse_record(s) {
            Ok((record, rest)) => {
                let (records, error) = parse_records(rest);
                (seq![record] + records, error)
            },
            Err(e) => (Seq::empty(), Some(e)),
        }
    }
}

#[via_fn]
proof fn parse_records_decreases(s: Seq<u8>) {
    lemma_parse_record_consumes(s);
}

impl TLSRecord {
    /// The header agrees with the fragment: the content type is that of the
    /// fragment, and the length is the number of bytes of the fragment.
    pub open spec fn wf(&self) -> bool {
        &&& self.content_type == self.fragment.spec_content_type()
        &&& self.length == self.fragment.wire(ByteOrder::BigEndian).len()
    }

    /// The record for `fragment`, with the content type and the length that
    /// belong to it. A fragment of 2^16 bytes or more has no length field.
    pub fn new(protocol_version: ProtocolVersion, fragment: Fragment) -> (r: Result<
        TLSRecord,
        Error,
    >)
        ensures
            match r {
                Ok(record) => {
                    &&& record.protocol_version == protocol_version
                    &&& record.fragment == fragment
                    &&& record.wf()
                },
                Err(e) => {
                    &&& e == Error::LengthMismatch
                    &&& fragment.wire(ByteOrder::BigEndian).len() >= 0x1_0000
                },
            },
    {
        match bytes_size(&fragment) {
            Ok(size) => {
                if size < 0x1_0000 {
                    Ok(
                        TLSRecord {
                            content_type: fragment.content_type(),
                            protocol_version,
                            length: size as u16,
                            fragment,
                        },
                    )
                } else {
                    Err(Error::LengthMismatch)
                }
            },
            Err(_) => Err(Error::LengthMismatch),
        }
    }
}

impl Deserialize for TLSRecord {
    open spec fn parse(s: Seq<u8>) -> Parsed<TLSRecordView> {
        parse_record(s)
    }

    proof fn lemma_parse_advances(s: Seq<u8>) {
        lemma_parse_record_consumes(s);
    }

    /// Reads the header, sets the bytes of the fragment apart and decodes the
    /// fragment from them alone. The fragment has to use all of them.
    fn deserialize<'a>(input: Buffer<'a>) -> (r: IResult<'a, TLSRecord>) {
        let (input, content_type) = ContentType::deserialize(input)?;
        let (input, protocol_version) = ProtocolVersion::deserialize(input)?;
        let (input, length) = be_u16(input)?;

        let (input, bytes) = take(input, length as usize)?;
        let fragment = Buffer::new(bytes, length as usize);
        assert(fragment@ =~= bytes@);
        let fragment = match content_type {
            ContentType::Handshake => {
                Fragment::Handshake(deserialize_exactly::<Handshake>(fragment)?)
            },
            ContentType::ChangeCipherSpec => {
                Fragment::ChangeCipherSpec(deserialize_exactly::<ChangeCipherSpec>(fragment)?)
            },
            ContentType::Alert => Fragment::Alert(deserialize_exactly::<Alert>(fragment)?),
            ContentType::ApplicationData => {
                return Err(Error::Unimplemented { kind: Kind::ContentType });
            },
        };

        Ok((input, TLSRecord { content_type, protocol_version, length, fragment }))
    }
}

impl Serialize for TLSRecord {
    open spec fn wire(&self, order: ByteOrder) -> Seq<u8> {
        self.content_type.wire(order) + self.protocol_version.wire(order) + self.length.wire(order)
            + self.fragment.wire(order)
    }

    proof fn lemma_wire_len(&self, a: ByteOrder, b: ByteOrder) {
        self.content_type.lemma_wire_len(a, b);
        self.protocol_version.lemma_wire_len(a, b);
        self.length.lemma_wire_len(a, b);
        self.fragment.lemma_wire_len(a, b);
    }

    fn serialize(&self, serializer: &mut Serializer) {
        let ghost order = serializer.order();
        serializer.serialize_field(&self.content_type);
        serializer.serialize_field(&self.protocol_version);
        serializer.serialize_field(&self.length);
        serializer.serialize_field(&self.fragment);
        assert(serializer@ =~= old(serializer)@ + self.wire(order));
    }
}

/// Decodes the records that follow one another in the first `length` bytes of
/// `input`. Decoding stops at the first record that cannot be decoded: the
/// records before it are returned together with its error. Where `input` holds
/// fewer than `length` bytes, nothing is decoded and the error is
/// `UnexpectedEof`.
pub fn deserialize_tls_record(input: &[u8], length: usize) -> (r: (Vec<TLSRecord>, Option<Error>))
    ensures
        length <= input@.len() ==> (view_seq(r.0@), r.1) == parse_records(
            input@.take(length as int),
        ),
        length > input@.len() ==> r.0@.len() == 0 && r.1 == Some(Error::UnexpectedEof),
{
    let mut records: Vec<TLSRecord> = Vec::new();
    if length > input.len() {
        return (records, Some(Error::UnexpectedEof));
    }
    let mut buffer = Buffer::new(input, length);
    let ghost all = parse_records(buffer@);
    assert(view_seq(records@) + all.0 =~= all.0);

    loop
        invariant
            length <= input@.len(),
            all == parse_records(input@.take(length as int)),
            all.0 == view_seq(records@) + parse_records(buffer@).0,
            all.1 == parse_records(buffer@).1,
        decreases buffer@.len(),
    {
        if buffer.length() == 0 {
            assert(view_seq(records@) + Seq::<TLSRecordView>::empty() =~= view_seq(records@));
            return (records, None);
        }
        proof {
            lemma_parse_record_consumes(buffer@);
        }
        match TLSRecord::deserialize(buffer) {
            Ok((new_buffer, record)) => {
                let ghost before = view_seq(records@);
                buffer = new_buffer;
                records.push(record);
                assert(view_seq(records@) =~= before + seq![record@]);
                assert(before + (seq![record@] + parse_records(buffer@).0) =~= before
                    + seq![record@] + parse_records(buffer@).0);
            },
            Err(e) => {
                assert(view_seq(records@) + Seq::<TLSRecordView>::empty() =~= view_seq(records@));
                return (records, Some(e));
            },
        }
    }
}

} // verus!
