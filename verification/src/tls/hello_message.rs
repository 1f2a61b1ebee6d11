//! The hello messages that open a handshake, and what they are made of.

use vstd::prelude::*;
use crate::endian::ByteOrder;
use crate::ser::{Serialize, Serializer};
use crate::tls::cipher_suite::CipherSuite;
use crate::tls::codes::{
    CompressionMethod, ExtensionType, HashAlgorithm, ProtocolVersion, SignatureAlgorithm,
};
use crate::tls::de::{
    Buffer, Deserialize, IResult, Parsed, be_u16, be_u32, decoded, parse_take, parse_u16,
    parse_u32, take,
};
use crate::tls::vector::{Opaque, Vector, VectorView};

verus! {

/// The cipher suites that a client offers.
pub type CipherSuites = Vector<u16, CipherSuite>;

/// The compression methods that a client offers.
pub type CompressionMethods = Vector<u8, CompressionMethod>;

/// The extensions of a hello message.
pub type Extensions = Vector<u16, Extension>;

/// The 32 bytes that each side contributes to the key material: a timestamp
/// and 28 random bytes.
#[derive(Debug, Clone, Copy, PartialEq, Eq)]
pub struct Random {
    pub gmt_unix_time: u32,
    pub random_bytes: [u8; 28],
}

/// The mathematical value of a `Random`.
#[verifier::ext_equal]
pub struct RandomView {
    pub gmt_unix_time: u32,
    pub random_bytes: Seq<u8>,
}

impl View for Random {
    type V = RandomView;

    open spec fn view(&self) -> RandomView {
        RandomView { gmt_unix_time: self.gmt_unix_time, random_bytes: self.random_bytes@ }
    }
}

/// What `Random::deserialize` finds at the start of `s`: a big-endian
/// timestamp of four bytes, then 28 bytes.
pub open spec fn parse_random(s: Seq<u8>) -> Parsed<RandomView> {
    match parse_u32(s) {
        Ok((gmt_unix_time, rest)) => match parse_take(rest, 28) {
            Ok((random_bytes, rest)) => Ok((RandomView { gmt_unix_time, random_bytes }, rest)),
            Err(e) => Err(e),
        },
        Err(e) => Err(e),
    }
}

/// Copies 28 bytes into an array.
fn random_bytes_of(bytes: &[u8]) -> (out: [u8; 28])
    requires
        bytes@.len() == 28,
    ensures
        out@ == bytes@,
{
    let mut out: [u8; 28] = [0u8; 28];
    let mut i: usize = 0;
    while i < 28
        invariant
            i <= 28,
            bytes@.len() == 28,
            forall|j: int| 0 <= j < i ==> out@[j] == bytes@[j],
        decreases 28 - i,
    {
        out[i] = bytes[i];
        i += 1;
    }
    assert(out@ =~= bytes@);
    out
}

impl Deserialize for Random {
    open spec fn parse(s: Seq<u8>) -> Parsed<RandomView> {
        parse_random(s)
    }

    proof fn lemma_parse_advances(s: Seq<u8>) {
        assert(Self::parse(s) == parse_random(s));
    }

    /// Reads the timestamp and the 28 random bytes.
    fn deserialize<'a>(input: Buffer<'a>) -> (r: IResult<'a, Random>) {
        let (input, gmt_unix_time) = be_u32(input)?;
        let (input, random_bytes) = take(input, 28)?;
        Ok((input, Random { gmt_unix_time, random_bytes: random_bytes_of(random_bytes) }))
    }
}

impl Serialize for Random {
    open spec fn wire(&self, order: ByteOrder) -> Seq<u8> {
        self.gmt_unix_time.wire(order) + self.random_bytes.wire(order)
    }

    proof fn lemma_wire_len(&self, a: ByteOrder, b: ByteOrder) {
        self.gmt_unix_time.lemma_wire_len(a, b);
        self.random_bytes.lemma_wire_len(a, b);
    }

    fn serialize(&self, serializer: &mut Serializer) {
        let ghost order = serializer.order();
        serializer.serialize_field(&self.gmt_unix_time);
        serializer.serialize_field(&self.random_bytes);
        assert(serializer@ =~= old(serializer)@ + self.wire(order));
    }
}

/// A pair of hash and signature algorithm that a client accepts.
#[derive(Debug, Clone, Copy, PartialEq, Eq, Structural)]
pub struct SignatureAndHashAlgorithm {
    pub hash: HashAlgorithm,
    pub signature: SignatureAlgorithm,
}

impl View for SignatureAndHashAlgorithm {
    type V = SignatureAndHashAlgorithm;

    open spec fn view(&self) -> SignatureAndHashAlgorithm {
        *self
    }
}

impl Serialize for SignatureAndHashAlgorithm {
    open spec fn wire(&self, order: ByteOrder) -> Seq<u8> {
        self.hash.wire(order) + self.signature.wire(order)
    }

    proof fn lemma_wire_len(&self, a: ByteOrder, b: ByteOrder) {
    }

    fn serialize(&self, serializer: &mut Serializer) {
        let ghost order = serializer.order();
        serializer.serialize_field(&self.hash);
        serializer.serialize_field(&self.signature);
        assert(serializer@ =~= old(serializer)@ + self.wire(order));
    }
}

/// What the decoder of a signature algorithm pair finds at the start of `s`:
/// the hash, then the signature, one byte each.
pub open spec fn parse_signature_and_hash(s: Seq<u8>) -> Parsed<SignatureAndHashAlgorithm> {
    match HashAlgorithm::parse(s) {
        Ok((hash, rest)) => match SignatureAlgorithm::parse(rest) {
            Ok((signature, rest)) => Ok((SignatureAndHashAlgorithm { hash, signature }, rest)),
            Err(e) => Err(e),
        },
        Err(e) => Err(e),
    }
}

impl Deserialize for SignatureAndHashAlgorithm {
    open spec fn parse(s: Seq<u8>) -> Parsed<SignatureAndHashAlgorithm> {
        parse_signature_and_hash(s)
    }

    proof fn lemma_parse_advances(s: Seq<u8>) {
    }

    /// Reads the hash and the signature.
    fn deserialize<'a>(input: Buffer<'a>) -> (r: IResult<'a, SignatureAndHashAlgorithm>) {
        let (input, hash) = HashAlgorithm::deserialize(input)?;
        let (input, signature) = SignatureAlgorithm::deserialize(input)?;
        Ok((input, SignatureAndHashAlgorithm { hash, signature }))
    }
}

/// The content of an extension, by kind. Its kind is not part of its bytes: the
/// extension that holds it names the kind in a field of its own.
#[derive(Debug, Clone, PartialEq, Eq)]
pub enum ExtensionData {
    SignatureAlgorithms(Vector<u16, SignatureAndHashAlgorithm>),
}

/// The mathematical value of an `ExtensionData`.
#[verifier::ext_equal]
pub enum ExtensionDataView {
    SignatureAlgorithms(VectorView<u16, SignatureAndHashAlgorithm>),
}

impl View for ExtensionData {
    type V = ExtensionDataView;

    open spec fn view(&self) -> ExtensionDataView {
        match self {
            ExtensionData::SignatureAlgorithms(algorithms) => {
                ExtensionDataView::SignatureAlgorithms(algorithms@)
            },
        }
    }
}

impl Serialize for ExtensionData {
    open spec fn wire(&self, order: ByteOrder) -> Seq<u8> {
        match self {
            ExtensionData::SignatureAlgorithms(algorithms) => algorithms.wire(order),
        }
    }

    proof fn lemma_wire_len(&self, a: ByteOrder, b: ByteOrder) {
        match self {
            ExtensionData::SignatureAlgorithms(algorithms) => algorithms.lemma_wire_len(a, b),
        }
    }

    fn serialize(&self, serializer: &mut Serializer) {
        match self {
            ExtensionData::SignatureAlgorithms(algorithms) => {
                serializer.serialize_newtype_variant(algorithms)
            },
        }
    }
}

/// What the decoder of an extension's content finds at the start of `s`: a
/// list of signature algorithm pairs.
pub open spec fn parse_extension_data(s: Seq<u8>) -> Parsed<ExtensionDataView> {
    match Vector::<u16, SignatureAndHashAlgorithm>::parse(s) {
        Ok((algorithms, rest)) => Ok((ExtensionDataView::SignatureAlgorithms(algorithms), rest)),
        Err(e) => Err(e),
    }
}

impl Deserialize for ExtensionData {
    open spec fn parse(s: Seq<u8>) -> Parsed<ExtensionDataView> {
        parse_extension_data(s)
    }

    proof fn lemma_parse_advances(s: Seq<u8>) {
        Vector::<u16, SignatureAndHashAlgorithm>::lemma_parse_advances(s);
    }

    /// Reads a list of signature algorithm pairs.
    fn deserialize<'a>(input: Buffer<'a>) -> (r: IResult<'a, ExtensionData>) {
        let (input, algorithms) = Vector::<u16, SignatureAndHashAlgorithm>::deserialize(input)?;
        Ok((input, ExtensionData::SignatureAlgorithms(algorithms)))
    }
}

/// One extension of a hello message: its kind and its content.
#[derive(Debug, Clone, PartialEq, Eq)]
pub struct Extension {
    pub extension_type: ExtensionType,
    pub data: Vector<u16, ExtensionData>,
}

/// The mathematical value of an `Extension`.
#[verifier::ext_equal]
pub struct ExtensionView {
    pub extension_type: ExtensionType,
    pub data: VectorView<u16, ExtensionDataView>,
}

impl View for Extension {
    type V = ExtensionView;

    open spec fn view(&self) -> ExtensionView {
        ExtensionView { extension_type: self.extension_type, data: self.data@ }
    }
}

impl Serialize for Extension {
    open spec fn wire(&self, order: ByteOrder) -> Seq<u8> {
        self.extension_type.wire(order) + self.data.wire(order)
    }

    proof fn lemma_wire_len(&self, a: ByteOrder, b: ByteOrder) {
        self.extension_type.lemma_wire_len(a, b);
        self.data.lemma_wire_len(a, b);
    }

    fn serialize(&self, serializer: &mut Serializer) {
        let ghost order = serializer.order();
        serializer.serialize_field(&self.extension_type);
        serializer.serialize_field(&self.data);
        assert(serializer@ =~= old(serializer)@ + self.wire(order));
    }
}

/// What the decoder of an extension finds at the start of `s`: the kind, then
/// the length-prefixed content.
pub open spec fn parse_extension(s: Seq<u8>) -> Parsed<ExtensionView> {
    match ExtensionType::parse(s) {
        Ok((extension_type, rest)) => match Vector::<u16, ExtensionData>::parse(rest) {
            Ok((data, rest)) => Ok((ExtensionView { extension_type, data }, rest)),
            Err(e) => Err(e),
        },
        Err(e) => Err(e),
    }
}

impl Deserialize for Extension {
    open spec fn parse(s: Seq<u8>) -> Parsed<ExtensionView> {
        parse_extension(s)
    }

    proof fn lemma_parse_advances(s: Seq<u8>) {
        ExtensionType::lemma_parse_advances(s);
        if let Ok((_, rest)) = ExtensionType::parse(s) {
            Vector::<u16, ExtensionData>::lemma_parse_advances(rest);
        }
    }

    /// Reads the kind and the content.
    fn deserialize<'a>(input: Buffer<'a>) -> (r: IResult<'a, Extension>) {
        let (input, extension_type) = ExtensionType::deserialize(input)?;
        let (input, data) = Vector::<u16, ExtensionData>::deserialize(input)?;
        Ok((input, Extension { extension_type, data }))
    }
}

/// The message with which a client opens a handshake.
#[derive(Debug, Clone, PartialEq, Eq)]
pub struct ClientHello {
    pub protocol_version: ProtocolVersion,
    pub random: Random,
    pub session_id: Opaque<u8>,
    pub cipher_suites: CipherSuites,
    pub compression_methods: CompressionMethods,
    pub extensions: Extensions,
}

/// The mathematical value of a `ClientHello`.
#[verifier::ext_equal]
pub struct ClientHelloView {
    pub protocol_version: ProtocolVersion,
    pub random: RandomView,
    pub session_id: VectorView<u8, u8>,
    pub cipher_suites: VectorView<u16, CipherSuite>,
    pub compression_methods: VectorView<u8, CompressionMethod>,
    pub extensions: VectorView<u16, ExtensionView>,
}

impl View for ClientHello {
    type V = ClientHelloView;

    open spec fn view(&self) -> ClientHelloView {
        ClientHelloView {
            protocol_version: self.protocol_version,
            random: self.random@,
            session_id: self.session_id@,
            cipher_suites: self.cipher_suites@,
            compression_methods: self.compression_methods@,
            extensions: self.extensions@,
        }
    }
}

impl Serialize for ClientHello {
    open spec fn wire(&self, order: ByteOrder) -> Seq<u8> {
        self.protocol_version.wire(order) + self.random.wire(order) + self.session_id.wire(order)
            + self.cipher_suites.wire(order) + self.compression_methods.wire(order)
            + self.extensions.wire(order)
    }

    proof fn lemma_wire_len(&self, a: ByteOrder, b: ByteOrder) {
        self.protocol_version.lemma_wire_len(a, b);
        self.random.lemma_wire_len(a, b);
        self.session_id.lemma_wire_len(a, b);
        self.cipher_suites.lemma_wire_len(a, b);
        self.compression_methods.lemma_wire_len(a, b);
        self.extensions.lemma_wire_len(a, b);
    }

    fn serialize(&self, serializer: &mut Serializer) {
        let ghost order = serializer.order();
        serializer.serialize_field(&self.protocol_version);
        serializer.serialize_field(&self.random);
        serializer.serialize_field(&self.session_id);
        serializer.serialize_field(&self.cipher_suites);
        serializer.serialize_field(&self.compression_methods);
        serializer.serialize_field(&self.extensions);
        assert(serializer@ =~= old(serializer)@ + self.wire(order));
    }
}

/// What the decoder of a client hello finds at the start of `s`: the version,
/// the random, the session id, and the lists of cipher suites, compression
/// methods and extensions.
pub open spec fn parse_client_hello(s: Seq<u8>) -> Parsed<ClientHelloView> {
    match ProtocolVersion::parse(s) {
        Ok((protocol_version, rest)) => match parse_random(rest) {
            Ok((random, rest)) => match Opaque::<u8>::parse(rest) {
                Ok((session_id, rest)) => match CipherSuites::parse(rest) {
                    Ok((cipher_suites, rest)) => match CompressionMethods::parse(rest) {
                        Ok((compression_methods, rest)) => match Extensions::parse(rest) {
                            Ok((extensions, rest)) => Ok(
                                (
                                    ClientHelloView {
                                        protocol_version,
                                        random,
                                        session_id,
                                        cipher_suites,
                                        compression_methods,
                                        extensions,
                                    },
                                    rest,
                                ),
                            ),
                            Err(e) => Err(e),
                        },
                        Err(e) => Err(e),
                    },
                    Err(e) => Err(e),
                },
                Err(e) => Err(e),
            },
            Err(e) => Err(e),
        },
        Err(e) => Err(e),
    }
}

impl Deserialize for ClientHello {
    open spec fn parse(s: Seq<u8>) -> Parsed<ClientHelloView> {
        parse_client_hello(s)
    }

    proof fn lemma_parse_advances(s: Seq<u8>) {
        ProtocolVersion::lemma_parse_advances(s);
        if let Ok((_, rest)) = ProtocolVersion::parse(s) {
            Random::lemma_parse_advances(rest);
            if let Ok((_, rest)) = parse_random(rest) {
                Opaque::<u8>::lemma_parse_advances(rest);
                if let Ok((_, rest)) = Opaque::<u8>::parse(rest) {
                    CipherSuites::lemma_parse_advances(rest);
                    if let Ok((_, rest)) = CipherSuites::parse(rest) {
                        CompressionMethods::lemma_parse_advances(rest);
                        if let Ok((_, rest)) = CompressionMethods::parse(rest) {
                            Extensions::lemma_parse_advances(rest);
                        }
                    }
                }
            }
        }
    }

    /// Reads a client hello with its lists.
    fn deserialize<'a>(input: Buffer<'a>) -> (r: IResult<'a, ClientHello>) {
        let (input, protocol_version) = ProtocolVersion::deserialize(input)?;
        let (input, random) = Random::deserialize(input)?;
        let (input, session_id) = Opaque::<u8>::deserialize(input)?;
        let (input, cipher_suites) = CipherSuites::deserialize(input)?;
        let (input, compression_methods) = CompressionMethods::deserialize(input)?;
        let (input, extensions) = Extensions::deserialize(input)?;
        Ok(
            (
                input,
                ClientHello {
                    protocol_version,
                    random,
                    session_id,
                    cipher_suites,
                    compression_methods,
                    extensions,
                },
            ),
        )
    }
}

/// The message with which a server answers a client's hello. A value that a
/// decoder made does not hold the server's extensions, which are skipped: the
/// length field of its extension list says how many bytes of them there were.
#[derive(Debug, Clone, PartialEq, Eq)]
pub struct ServerHello {
    pub protocol_version: ProtocolVersion,
    pub random: Random,
    pub session_id: Opaque<u8>,
    pub cipher_suite: CipherSuite,
    pub compression_method: CompressionMethod,
    pub extensions: Extensions,
}

/// The mathematical value of a `ServerHello`.
#[verifier::ext_equal]
pub struct ServerHelloView {
    pub protocol_version: ProtocolVersion,
    pub random: RandomView,
    pub session_id: VectorView<u8, u8>,
    pub cipher_suite: CipherSuite,
    pub compression_method: CompressionMethod,
    pub extensions: VectorView<u16, ExtensionView>,
}

impl View for ServerHello {
    type V = ServerHelloView;

    open spec fn view(&self) -> ServerHelloView {
        ServerHelloView {
            protocol_version: self.protocol_version,
            random: self.random@,
            session_id: self.session_id@,
            cipher_suite: self.cipher_suite,
            compression_method: self.compression_method,
            extensions: self.extensions@,
        }
    }
}

/// The value of an extension list that holds nothing.
pub open spec fn no_extensions() -> VectorView<u16, ExtensionView> {
    VectorView { length: 0, data: Seq::empty() }
}

/// What the decoder of a server hello finds of the extensions in `s`, the
/// bytes after the compression method. Where `s` is empty the server sent no
/// extensions. Otherwise `s` starts with a length of two bytes and that many
/// bytes of extensions, which are skipped and not parsed: the value keeps
/// their length and holds none of them.
pub open spec fn parse_skipped_extensions(s: Seq<u8>) -> Parsed<VectorView<u16, ExtensionView>> {
    if s.len() == 0 {
        Ok((no_extensions(), s))
    } else {
        match parse_u16(s) {
            Ok((length, rest)) => match parse_take(rest, length as nat) {
                Ok((_, rest)) => Ok((VectorView { length, data: Seq::empty() }, rest)),
                Err(e) => Err(e),
            },
            Err(e) => Err(e),
        }
    }
}

/// Skips the extensions of a server hello: reads their length, where there is
/// one, and steps over exactly that many bytes.
fn skip_extensions<'a>(input: Buffer<'a>) -> (r: IResult<'a, Extensions>)
    ensures
        decoded(r, parse_skipped_extensions(input@)),
{
    if input.length() == 0 {
        let extensions = Extensions { length: 0, data: Vec::new() };
        assert(extensions@ =~= no_extensions());
        return Ok((input, extensions));
    }
    let (rest, length) = be_u16(input)?;
    let (rest, _) = take(rest, length as usize)?;
    let extensions = Extensions { length, data: Vec::new() };
    assert(extensions@ =~= VectorView { length, data: Seq::<ExtensionView>::empty() });
    Ok((rest, extensions))
}

/// What `ServerHello::deserialize` finds at the start of `s`: the version, the
/// random, the session id, one cipher suite and one compression method, and
/// then the extensions, which are skipped.
pub open spec fn parse_server_hello(s: Seq<u8>) -> Parsed<ServerHelloView> {
    match ProtocolVersion::parse(s) {
        Ok((protocol_version, rest)) => match parse_random(rest) {
            Ok((random, rest)) => match Opaque::<u8>::parse(rest) {
                Ok((session_id, rest)) => match CipherSuite::parse(rest) {
                    Ok((cipher_suite, rest)) => match CompressionMethod::parse(rest) {
                        Ok((compression_method, rest)) => match parse_skipped_extensions(rest) {
                            Ok((extensions, rest)) => Ok(
                                (
                                    ServerHelloView {
                                        protocol_version,
                                        random,
                                        session_id,
                                        cipher_suite,
                                        compression_method,
                                        extensions,
                                    },
                                    rest,
                                ),
                            ),
                            Err(e) => Err(e),
                        },
                        Err(e) => Err(e),
                    },
                    Err(e) => Err(e),
                },
                Err(e) => Err(e),
            },
            Err(e) => Err(e),
        },
        Err(e) => Err(e),
    }
}

impl Deserialize for ServerHello {
    open spec fn parse(s: Seq<u8>) -> Parsed<ServerHelloView> {
        parse_server_hello(s)
    }

    proof fn lemma_parse_advances(s: Seq<u8>) {
        ProtocolVersion::lemma_parse_advances(s);
        if let Ok((_, rest)) = ProtocolVersion::parse(s) {
            Random::lemma_parse_advances(rest);
            if let Ok((_, rest)) = parse_random(rest) {
                Opaque::<u8>::lemma_parse_advances(rest);
                if let Ok((_, rest)) = Opaque::<u8>::parse(rest) {
                    CipherSuite::lemma_parse_advances(rest);
                    if let Ok((_, rest)) = CipherSuite::parse(rest) {
                        CompressionMethod::lemma_parse_advances(rest);
                    }
                }
            }
        }
    }

    /// Reads a server hello. The extensions that may follow the compression
    /// method are skipped, not parsed: the value keeps the length of what was
    /// skipped in the length field of its extension list, and the list itself
    /// is empty.
    fn deserialize<'a>(input: Buffer<'a>) -> (r: IResult<'a, ServerHello>) {
        let (input, protocol_version) = ProtocolVersion::deserialize(input)?;
        let (input, random) = Random::deserialize(input)?;
        let (input, session_id) = Opaque::<u8>::deserialize(input)?;
        let (input, cipher_suite) = CipherSuite::deserialize(input)?;
        let (input, compression_method) = CompressionMethod::deserialize(input)?;
        let (input, extensions) = skip_extensions(input)?;

        Ok(
            (
                input,
                ServerHello {
                    protocol_version,
                    random,
                    session_id,
                    cipher_suite,
                    compression_method,
                    extensions,
                },
            ),
        )
    }
}

impl ServerHello {
    /// The number of bytes of extensions that a decoder skipped when it made
    /// this value: what the length field of the extension list announces
    /// while the list holds nothing.
    pub open spec fn spec_skipped_extensions(&self) -> u16 {
        if self.extensions.data@.len() == 0 {
            self.extensions.length
        } else {
            0
        }
    }

    /// The number of bytes of extensions that a decoder skipped when it made
    /// this value. A value that holds its extensions has skipped none.
    #[verifier::when_used_as_spec(spec_skipped_extensions)]
    pub fn skipped_extensions(&self) -> (n: u16)
        ensures
            n == self.spec_skipped_extensions(),
    {
        if self.extensions.data.len() == 0 {
            self.extensions.length
        } else {
            0
        }
    }
}

impl Serialize for ServerHello {
    open spec fn wire(&self, order: ByteOrder) -> Seq<u8> {
        self.protocol_version.wire(order) + self.random.wire(order) + self.session_id.wire(order)
            + self.cipher_suite.wire(order) + self.compression_method.wire(order)
            + self.extensions.wire(order)
    }

    proof fn lemma_wire_len(&self, a: ByteOrder, b: ByteOrder) {
        self.protocol_version.lemma_wire_len(a, b);
        self.random.lemma_wire_len(a, b);
        self.session_id.lemma_wire_len(a, b);
        self.cipher_suite.lemma_wire_len(a, b);
        self.compression_method.lemma_wire_len(a, b);
        self.extensions.lemma_wire_len(a, b);
    }

    fn serialize(&self, serializer: &mut Serializer) {
        let ghost order = serializer.order();
        serializer.serialize_field(&self.protocol_version);
        serializer.serialize_field(&self.random);
        serializer.serialize_field(&self.session_id);
        serializer.serialize_field(&self.cipher_suite);
        serializer.serialize_field(&self.compression_method);
        serializer.serialize_field(&self.extensions);
        assert(serializer@ =~= old(serializer)@ + self.wire(order));
    }
}

} // verus!
