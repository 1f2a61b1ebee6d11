//! The handshake layer: a typed, length-prefixed message inside a record.

use vstd::prelude::*;
use crate::endian::ByteOrder;
use crate::error::{Error, Kind};
use crate::ser::{Serialize, Serializer, bytes_size, to_bytes};
use crate::tls::codes::{HandshakeType, ProtocolVersion};
use crate::tls::de::{
    Buffer, Deserialize, IResult, Parsed, deserialize_exactly, parse_exactly, parse_take, take,
};
use crate::tls::hello_message::{ClientHello, ClientHelloView, ServerHello, ServerHelloView};
use crate::tls::uint24::{parse_u24, u24};
use crate::tls::vector::{Opaque, VectorView};

verus! {

/// The key material that a client sends, encrypted, in its key exchange.
pub type ClientKeyExchange = Opaque<u16>;

/// The server's certificates: a length, then the length-prefixed list of
/// DER-encoded certificates, which this library does not look into.
#[derive(Debug, Clone, PartialEq, Eq)]
pub struct Certificate {
    pub length: u24,
    pub certificate_list: Opaque<u24>,
}

/// The mathematical value of a `Certificate`.
#[verifier::ext_equal]
pub struct CertificateView {
    pub length: nat,
    pub certificate_list: VectorView<nat, u8>,
}

impl View for Certificate {
    type V = CertificateView;

    open spec fn view(&self) -> CertificateView {
        CertificateView { length: self.length@, certificate_list: self.certificate_list@ }
    }
}

/// What `Certificate::deserialize` finds at the start of `s`: a length of
/// three bytes, then a blob with a three-byte length of its own.
pub open spec fn parse_certificate(s: Seq<u8>) -> Parsed<CertificateView> {
    match parse_u24(s) {
        Ok((length, rest)) => match Opaque::<u24>::parse(rest) {
            Ok((certificate_list, rest)) => Ok(
                (CertificateView { length, certificate_list }, rest),
            ),
            Err(e) => Err(e),
        },
        Err(e) => Err(e),
    }
}

impl Deserialize for Certificate {
    open spec fn parse(s: Seq<u8>) -> Parsed<CertificateView> {
        parse_certificate(s)
    }

    proof fn lemma_parse_advances(s: Seq<u8>) {
    }

    /// Reads the length and the certificate list, whose bytes are copied out
    /// as they stand.
    fn deserialize<'a>(input: Buffer<'a>) -> (r: IResult<'a, Certificate>) {
        let (input, length) = u24::deserialize(input)?;
        let (input, certificate_list) = Opaque::<u24>::deserialize(input)?;
        Ok((input, Certificate { length, certificate_list }))
    }
}

impl Serialize for Certificate {
    open spec fn wire(&self, order: ByteOrder) -> Seq<u8> {
        self.length.wire(order) + self.certificate_list.wire(order)
    }

    proof fn lemma_wire_len(&self, a: ByteOrder, b: ByteOrder) {
        self.length.lemma_wire_len(a, b);
        self.certificate_list.lemma_wire_len(a, b);
    }

    fn serialize(&self, serializer: &mut Serializer) {
        let ghost order = serializer.order();
        serializer.serialize_field(&self.length);
        serializer.serialize_field(&self.certificate_list);
        assert(serializer@ =~= old(serializer)@ + self.wire(order));
    }
}

/// The secret from which both sides derive their keys. Its bytes are what the
/// public-key encryption of the key exchange is applied to.
#[derive(Debug, Clone, PartialEq, Eq)]
pub struct PreMasterSecret {
    pub protocol_version: ProtocolVersion,
    pub random: Opaque<u16>,
}

impl Serialize for PreMasterSecret {
    open spec fn wire(&self, order: ByteOrder) -> Seq<u8> {
        self.protocol_version.wire(order) + self.random.wire(order)
    }

    proof fn lemma_wire_len(&self, a: ByteOrder, b: ByteOrder) {
        self.protocol_version.lemma_wire_len(a, b);
        self.random.lemma_wire_len(a, b);
    }

    fn serialize(&self, serializer: &mut Serializer) {
        let ghost order = serializer.order();
        serializer.serialize_field(&self.protocol_version);
        serializer.serialize_field(&self.random);
        assert(serializer@ =~= old(serializer)@ + self.wire(order));
    }
}

impl PreMasterSecret {
    /// The bytes of the secret in the given byte order.
    pub fn to_bytes(&self, order: ByteOrder) -> (bytes: Vec<u8>)
        ensures
            bytes@ == self.wire(order),
    {
        match to_bytes(self, order) {
            Ok(bytes) => bytes,
            Err(_) => Vec::new(),
        }
    }
}

/// The message of a handshake, by kind. Its kind is not part of its bytes: the
/// handshake that holds it names the kind in a field of its own.
#[derive(Debug, PartialEq, Eq)]
pub enum HandshakeBody {
    ClientHello(ClientHello),
    ServerHello(ServerHello),
    Certificate(Certificate),
    ServerHelloDone(()),
    ClientKeyExchange(ClientKeyExchange),
}

/// The mathematical value of a `HandshakeBody`.
#[verifier::ext_equal]
pub enum HandshakeBodyView {
    ClientHello(ClientHelloView),
    ServerHello(ServerHelloView),
    Certificate(CertificateView),
    ServerHelloDone,
    ClientKeyExchange(VectorView<u16, u8>),
}

impl View for HandshakeBody {
    type V = HandshakeBodyView;

    open spec fn view(&self) -> HandshakeBodyView {
        match self {
            HandshakeBody::ClientHello(body) => HandshakeBodyView::ClientHello(body@),
            HandshakeBody::ServerHello(body) => HandshakeBodyView::ServerHello(body@),
            HandshakeBody::Certificate(body) => HandshakeBodyView::Certificate(body@),
            HandshakeBody::ServerHelloDone(_) => HandshakeBodyView::ServerHelloDone,
            HandshakeBody::ClientKeyExchange(body) => HandshakeBodyView::ClientKeyExchange(body@),
        }
    }
}

impl HandshakeBody {
    /// The handshake type that announces a body of this kind.
    pub open spec fn spec_msg_type(&self) -> HandshakeType {
        match self {
            HandshakeBody::ClientHello(_) => HandshakeType::ClientHello,
            HandshakeBody::ServerHello(_) => HandshakeType::ServerHello,
            HandshakeBody::Certificate(_) => HandshakeType::Certificate,
            HandshakeBody::ServerHelloDone(_) => HandshakeType::ServerHelloDone,
            HandshakeBody::ClientKeyExchange(_) => HandshakeType::ClientKeyExchange,
        }
    }

    /// The handshake type that announces a body of this kind.
    #[verifier::when_used_as_spec(spec_msg_type)]
    pub fn msg_type(&self) -> (t: HandshakeType)
        ensures
            t == self.spec_msg_type(),
    {
        match self {
            HandshakeBody::ClientHello(_) => HandshakeType::ClientHello,
            HandshakeBody::ServerHello(_) => HandshakeType::ServerHello,
            HandshakeBody::Certificate(_) => HandshakeType::Certificate,
            HandshakeBody::ServerHelloDone(_) => HandshakeType::ServerHelloDone,
            HandshakeBody::ClientKeyExchange(_) => HandshakeType::ClientKeyExchange,
        }
    }
}

impl Serialize for HandshakeBody {
    open spec fn wire(&self, order: ByteOrder) -> Seq<u8> {
        match self {
            HandshakeBody::ClientHello(body) => body.wire(order),
            HandshakeBody::ServerHello(body) => body.wire(order),
            HandshakeBody::Certificate(body) => body.wire(order),
            HandshakeBody::ServerHelloDone(body) => body.wire(order),
            HandshakeBody::ClientKeyExchange(body) => body.wire(order),
        }
    }

    proof fn lemma_wire_len(&self, a: ByteOrder, b: ByteOrder) {
        match self {
            HandshakeBody::ClientHello(body) => body.lemma_wire_len(a, b),
            HandshakeBody::ServerHello(body) => body.lemma_wire_len(a, b),
            HandshakeBody::Certificate(body) => body.lemma_wire_len(a, b),
            HandshakeBody::ServerHelloDone(body) => body.lemma_wire_len(a, b),
            HandshakeBody::ClientKeyExchange(body) => body.lemma_wire_len(a, b),
        }
    }

    fn serialize(&self, serializer: &mut Serializer) {
        match self {
            HandshakeBody::ClientHello(body) => serializer.serialize_newtype_variant(body),
            HandshakeBody::ServerHello(body) => serializer.serialize_newtype_variant(body),
            HandshakeBody::Certificate(body) => serializer.serialize_newtype_variant(body),
            HandshakeBody::ServerHelloDone(body) => serializer.serialize_newtype_variant(body),
            HandshakeBody::ClientKeyExchange(body) => serializer.serialize_newtype_variant(body),
        }
    }
}

/// A handshake message with its header: the type, the length of the body in
/// bytes, and the body.
#[derive(Debug, PartialEq, Eq)]
pub struct Handshake {
    pub msg_type: HandshakeType,
    pub length: u24,
    pub body: HandshakeBody,
}

/// The mathematical value of a `Handshake`.
#[verifier::ext_equal]
pub struct HandshakeView {
    pub msg_type: HandshakeType,
    pub length: nat,
    pub body: HandshakeBodyView,
}

impl View for Handshake {
    type V = HandshakeView;

    open spec fn view(&self) -> HandshakeView {
        HandshakeView { msg_type: self.msg_type, length: self.length@, body: self.body@ }
    }
}

/// The body that `Handshake::deserialize` finds in the bytes `s` that the
/// length field sets apart for it, by message type. The body fills `s`
/// exactly: bytes that it leaves unread are a `LengthMismatch`. Only what a
/// server sends is decoded.
pub open spec fn parse_handshake_body(msg_type: HandshakeType, s: Seq<u8>) -> Result<
    HandshakeBodyView,
    Error,
> {
    match msg_type {
        HandshakeType::ServerHello => match parse_exactly::<ServerHello>(s) {
            Ok(body) => Ok(HandshakeBodyView::ServerHello(body)),
            Err(e) => Err(e),
        },
        HandshakeType::Certificate => match parse_exactly::<Certificate>(s) {
            Ok(body) => Ok(HandshakeBodyView::Certificate(body)),
            Err(e) => Err(e),
        },
        HandshakeType::ServerHelloDone => if s.len() == 0 {
            Ok(HandshakeBodyView::ServerHelloDone)
        } else {
            Err(Error::LengthMismatch)
        },
        _ => Err(Error::Unimplemented { kind: Kind::HandshakeType }),
    }
}

/// What `Handshake::deserialize` finds at the start of `s`: the type, a length
/// of three bytes, and in the bytes that the length sets apart the body.
pub open spec fn parse_handshake(s: Seq<u8>) -> Parsed<HandshakeView> {
    match HandshakeType::parse(s) {
        Ok((msg_type, rest)) => match parse_u24(rest) {
            Ok((length, rest)) => match parse_take(rest, length) {
                Ok((fragment, rest)) => match parse_handshake_body(msg_type, fragment) {
                    Ok(body) => Ok((HandshakeView { msg_type, length, body }, rest)),
                    Err(e) => Err(e),
                },
                Err(e) => Err(e),
            },
            Err(e) => Err(e),
        },
        Err(e) => Err(e),
    }
}

impl Handshake {
    /// The header agrees with the body: the type is that of the body, and the
    /// length is the number of bytes of the body.
    pub open spec fn wf(&self) -> bool {
        &&& self.msg_type == self.body.spec_msg_type()
        &&& self.length@ == self.body.wire(ByteOrder::BigEndian).len()
        &&& self.length.wf()
    }

    /// The handshake message for `body`, with the type and the length that
    /// belong to it. A body of 2^24 bytes or more has no length field.
    pub fn new(body: HandshakeBody) -> (r: Result<Handshake, Error>)
        ensures
            match r {
                Ok(handshake) => {
                    &&& handshake.body == body
                    &&& handshake.wf()
                },
                Err(e) => {
                    &&& e == Error::LengthMismatch
                    &&& body.wire(ByteOrder::BigEndian).len() >= 0x100_0000
                },
            },
    {
        match bytes_size(&body) {
            Ok(size) => match u24::checked_from(size) {
                Some(length) => Ok(Handshake { msg_type: body.msg_type(), length, body }),
                None => Err(Error::LengthMismatch),
            },
            Err(_) => Err(Error::LengthMismatch),
        }
    }
}

impl Deserialize for Handshake {
    open spec fn parse(s: Seq<u8>) -> Parsed<HandshakeView> {
        parse_handshake(s)
    }

    proof fn lemma_parse_advances(s: Seq<u8>) {
    }

    /// Reads the type and the length, sets the bytes of the body apart and
    /// decodes the body from them alone. The body has to use all of them.
    fn deserialize<'a>(input: Buffer<'a>) -> (r: IResult<'a, Handshake>) {
        let (input, msg_type) = HandshakeType::deserialize(input)?;
        let (input, length) = u24::deserialize(input)?;

        let (input, bytes) = take(input, length.to_usize())?;
        let fragment = Buffer::new(bytes, length.to_usize());
        assert(fragment@ =~= bytes@);

        let body = match msg_type {
            HandshakeType::ServerHello => {
                HandshakeBody::ServerHello(deserialize_exactly::<ServerHello>(fragment)?)
            },
            HandshakeType::Certificate => {
                HandshakeBody::Certificate(deserialize_exactly::<Certificate>(fragment)?)
            },
            HandshakeType::ServerHelloDone => {
                if fragment.length() != 0 {
                    return Err(Error::LengthMismatch);
                }
                HandshakeBody::ServerHelloDone(())
            },
            _ => {
                return Err(Error::Unimplemented { kind: Kind::HandshakeType });
            },
        };

        Ok((input, Handshake { msg_type, length, body }))
    }
}

impl Serialize for Handshake {
    open spec fn wire(&self, order: ByteOrder) -> Seq<u8> {
        self.msg_type.wire(order) + self.length.wire(order) + self.body.wire(order)
    }

    proof fn lemma_wire_len(&self, a: ByteOrder, b: ByteOrder) {
        self.msg_type.lemma_wire_len(a, b);
        self.length.lemma_wire_len(a, b);
        self.body.lemma_wire_len(a, b);
    }

    fn serialize(&self, serializer: &mut Serializer) {
        let ghost order = serializer.order();
        serializer.serialize_field(&self.msg_type);
        serializer.serialize_field(&self.length);
        serializer.serialize_field(&self.body);
        assert(serializer@ =~= old(serializer)@ + self.wire(order));
    }
}

} // verus!
