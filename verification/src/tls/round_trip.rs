//! Decoding undoes encoding: for every value that the decoders accept, the
//! big-endian bytes of the value decode to the value itself. The bytes of a
//! value are told by its view alone, so what holds of an encoded value's
//! lengths holds of the value decoded from it.

use vstd::prelude::*;
use crate::endian::{ByteOrder, be_bytes, lemma_be_value_of_be_bytes, lemma_int_bytes_len};
use crate::error::Error;
use crate::ser::Serialize;
use crate::ser::basic::{lemma_wire_seq_concat, lemma_wire_seq_one, wire_seq};
use crate::tls::de::Deserialize;
use crate::tls::handshake::{
    Certificate, Handshake, HandshakeBody, parse_handshake_body,
};
use crate::tls::hello_message::{
    ClientHello, Extension, ExtensionData, ExtensionView, Extensions, Random, ServerHello,
    SignatureAndHashAlgorithm, no_extensions, parse_skipped_extensions,
};
use crate::tls::uint24::u24;
use crate::tls::vector::{Length, Vector, VectorView, parse_elements, view_seq};
use crate::tls::{Alert, Fragment, TLSRecord, TLSRecordView, parse_fragment, parse_records};

verus! {

/// A type whose decoder undoes its encoder.
pub trait RoundTrip: Serialize + Deserialize {
    /// The decoder gives this value back from its bytes. This fails only where
    /// a length field of the value does not say what the value holds.
    spec fn decodable(&self) -> bool;

    /// Decoding the big-endian bytes of a value, whatever follows them, gives
    /// the value and leaves what follows.
    proof fn lemma_parse_wire(&self, tail: Seq<u8>)
        requires
            self.decodable(),
        ensures
            Self::parse(self.wire(ByteOrder::BigEndian) + tail) == Ok::<
                (<Self as View>::V, Seq<u8>),
                Error,
            >((self@, tail)),
    ;
}

/// Decoding the big-endian bytes of a value gives the value back and uses up
/// all the bytes.
pub proof fn lemma_round_trip<T: RoundTrip>(value: T)
    requires
        value.decodable(),
    ensures
        T::parse(value.wire(ByteOrder::BigEndian)) == Ok::<(T::V, Seq<u8>), Error>(
            (value@, Seq::empty()),
        ),
{
    let s = value.wire(ByteOrder::BigEndian);
    assert(s + Seq::<u8>::empty() =~= s);
    value.lemma_parse_wire(Seq::empty());
}

impl RoundTrip for u8 {
    open spec fn decodable(&self) -> bool {
        true
    }

    proof fn lemma_parse_wire(&self, tail: Seq<u8>) {
        let s = self.wire(ByteOrder::BigEndian) + tail;
        assert(s[0] == *self);
        assert(s.skip(1) =~= tail);
    }
}

impl RoundTrip for u16 {
    open spec fn decodable(&self) -> bool {
        true
    }

    proof fn lemma_parse_wire(&self, tail: Seq<u8>) {
        let s = self.wire(ByteOrder::BigEndian) + tail;
        lemma_int_bytes_len(*self as int, 2, ByteOrder::BigEndian);
        lemma_be_value_of_be_bytes(*self as int);
        assert(s.take(2) =~= be_bytes(*self as int, 2));
        assert(s.skip(2) =~= tail);
    }
}

impl RoundTrip for u32 {
    open spec fn decodable(&self) -> bool {
        true
    }

    proof fn lemma_parse_wire(&self, tail: Seq<u8>) {
        let s = self.wire(ByteOrder::BigEndian) + tail;
        lemma_int_bytes_len(*self as int, 4, ByteOrder::BigEndian);
        lemma_be_value_of_be_bytes(*self as int);
        assert(s.take(4) =~= be_bytes(*self as int, 4));
        assert(s.skip(4) =~= tail);
    }
}

impl RoundTrip for u24 {
    /// The number is below 2^24.
    open spec fn decodable(&self) -> bool {
        self.wf()
    }

    proof fn lemma_parse_wire(&self, tail: Seq<u8>) {
        let s = self.wire(ByteOrder::BigEndian) + tail;
        lemma_int_bytes_len(self@ as int, 3, ByteOrder::BigEndian);
        lemma_be_value_of_be_bytes(self@ as int);
        assert(s.take(3) =~= be_bytes(self@ as int, 3));
        assert(s.skip(3) =~= tail);
    }
}

/// The bytes of elements written one after the other decode, as the elements
/// of a vector, to those elements.
pub proof fn lemma_parse_elements_wire<D: RoundTrip>(items: Seq<D>)
    requires
        forall|i: int| 0 <= i < items.len() ==> (#[trigger] items[i]).decodable(),
    ensures
        parse_elements::<D>(wire_seq(items, ByteOrder::BigEndian)) == Ok::<Seq<D::V>, Error>(
            view_seq(items),
        ),
    decreases items.len(),
{
    let order = ByteOrder::BigEndian;
    if items.len() == 0 {
        assert(view_seq(items) =~= Seq::<D::V>::empty());
    } else {
        let first = items[0];
        let others = items.skip(1);
        let tail = wire_seq(others, order);
        assert(items =~= seq![first] + others);
        lemma_wire_seq_concat(seq![first], others, order);
        lemma_wire_seq_one(first, order);
        first.lemma_parse_wire(tail);
        D::lemma_parse_advances(first.wire(order) + tail);
        assert forall|i: int| 0 <= i < others.len() implies (#[trigger] others[i]).decodable() by {
            assert(others[i] == items[i + 1]);
        }
        lemma_parse_elements_wire(others);
        assert(view_seq(items) =~= seq![first@] + view_seq(others));
    }
}

impl<T: RoundTrip + Length, D: RoundTrip> RoundTrip for Vector<T, D> {
    /// The length field holds the number of bytes of the elements, and the
    /// length and every element are given back by their own decoders.
    open spec fn decodable(&self) -> bool {
        &&& self.length.decodable()
        &&& self.wf()
        &&& forall|i: int| 0 <= i < self.data@.len() ==> (#[trigger] self.data@[i]).decodable()
    }

    proof fn lemma_parse_wire(&self, tail: Seq<u8>) {
        let order = ByteOrder::BigEndian;
        let s = self.wire(order) + tail;
        let rest = wire_seq(self.data@, order) + tail;
        let size = T::count(self.length@) as int;
        assert(s =~= self.length.wire(order) + rest);
        self.length.lemma_parse_wire(rest);
        assert(rest.take(size) =~= wire_seq(self.data@, order));
        assert(rest.skip(size) =~= tail);
        lemma_parse_elements_wire(self.data@);
    }
}

impl RoundTrip for Random {
    open spec fn decodable(&self) -> bool {
        true
    }

    proof fn lemma_parse_wire(&self, tail: Seq<u8>) {
        let order = ByteOrder::BigEndian;
        let s = self.wire(order) + tail;
        let rest = self.random_bytes.wire(order) + tail;
        assert(s =~= self.gmt_unix_time.wire(order) + rest);
        self.gmt_unix_time.lemma_parse_wire(rest);
        crate::ser::basic::lemma_wire_seq_bytes(self.random_bytes@, order);
        assert(rest.take(28) =~= self.random_bytes@);
        assert(rest.skip(28) =~= tail);
    }
}

impl RoundTrip for SignatureAndHashAlgorithm {
    open spec fn decodable(&self) -> bool {
        true
    }

    proof fn lemma_parse_wire(&self, tail: Seq<u8>) {
        let order = ByteOrder::BigEndian;
        let s = self.wire(order) + tail;
        let rest = self.signature.wire(order) + tail;
        assert(s =~= self.hash.wire(order) + rest);
        self.hash.lemma_parse_wire(rest);
        self.signature.lemma_parse_wire(tail);
    }
}

impl RoundTrip for ExtensionData {
    open spec fn decodable(&self) -> bool {
        match self {
            ExtensionData::SignatureAlgorithms(algorithms) => algorithms.decodable(),
        }
    }

    proof fn lemma_parse_wire(&self, tail: Seq<u8>) {
        match self {
            ExtensionData::SignatureAlgorithms(algorithms) => algorithms.lemma_parse_wire(tail),
        }
    }
}

impl RoundTrip for Extension {
    open spec fn decodable(&self) -> bool {
        self.data.decodable()
    }

    proof fn lemma_parse_wire(&self, tail: Seq<u8>) {
        let order = ByteOrder::BigEndian;
        let s = self.wire(order) + tail;
        let rest = self.data.wire(order) + tail;
        assert(s =~= self.extension_type.wire(order) + rest);
        self.extension_type.lemma_parse_wire(rest);
        self.data.lemma_parse_wire(tail);
    }
}

impl RoundTrip for ClientHello {
    /// Every list has the length that its length field says.
    open spec fn decodable(&self) -> bool {
        &&& self.session_id.decodable()
        &&& self.cipher_suites.decodable()
        &&& self.compression_methods.decodable()
        &&& self.extensions.decodable()
    }

    proof fn lemma_parse_wire(&self, tail: Seq<u8>) {
        let order = ByteOrder::BigEndian;
        let s = self.wire(order) + tail;
        let t5 = self.extensions.wire(order) + tail;
        let t4 = self.compression_methods.wire(order) + t5;
        let t3 = self.cipher_suites.wire(order) + t4;
        let t2 = self.session_id.wire(order) + t3;
        let t1 = self.random.wire(order) + t2;
        assert(s =~= self.protocol_version.wire(order) + t1);
        self.protocol_version.lemma_parse_wire(t1);
        self.random.lemma_parse_wire(t2);
        self.session_id.lemma_parse_wire(t3);
        self.cipher_suites.lemma_parse_wire(t4);
        self.compression_methods.lemma_parse_wire(t5);
        self.extensions.lemma_parse_wire(tail);
    }
}

impl RoundTrip for ServerHello {
    /// The session id has the length that its length field says, and there
    /// are no extensions, which the decoder skips.
    open spec fn decodable(&self) -> bool {
        &&& self.session_id.decodable()
        &&& self.extensions@ == no_extensions()
    }

    proof fn lemma_parse_wire(&self, tail: Seq<u8>) {
        let order = ByteOrder::BigEndian;
        let s = self.wire(order) + tail;
        let t5 = self.extensions.wire(order) + tail;
        let t4 = self.compression_method.wire(order) + t5;
        let t3 = self.cipher_suite.wire(order) + t4;
        let t2 = self.session_id.wire(order) + t3;
        let t1 = self.random.wire(order) + t2;
        assert(s =~= self.protocol_version.wire(order) + t1);
        self.protocol_version.lemma_parse_wire(t1);
        self.random.lemma_parse_wire(t2);
        self.session_id.lemma_parse_wire(t3);
        self.cipher_suite.lemma_parse_wire(t4);
        self.compression_method.lemma_parse_wire(t5);
        lemma_parse_wire_no_extensions(self.extensions, tail);
    }
}

/// The bytes of an empty extension list, whatever follows them, are skipped
/// as an extension block of no bytes.
proof fn lemma_parse_wire_no_extensions(extensions: Extensions, tail: Seq<u8>)
    requires
        extensions@ == no_extensions(),
    ensures
        parse_skipped_extensions(extensions.wire(ByteOrder::BigEndian) + tail) == Ok::<
            (VectorView<u16, ExtensionView>, Seq<u8>),
            Error,
        >((no_extensions(), tail)),
{
    let order = ByteOrder::BigEndian;
    let s = extensions.wire(order) + tail;
    assert(extensions.length == 0);
    assert(extensions.data@.len() == view_seq(extensions.data@).len());
    assert(wire_seq(extensions.data@, order) =~= Seq::<u8>::empty());
    lemma_int_bytes_len(0, 2, order);
    lemma_be_value_of_be_bytes(0);
    assert(s.take(2) =~= be_bytes(0, 2));
    assert(s.skip(2) =~= tail);
    assert(s.skip(2).take(0) =~= Seq::<u8>::empty());
    assert(s.skip(2).skip(0) =~= tail);
}

impl RoundTrip for Certificate {
    /// Both lengths are below 2^24, and the list has the length that its
    /// length field says.
    open spec fn decodable(&self) -> bool {
        &&& self.length.decodable()
        &&& self.certificate_list.decodable()
    }

    proof fn lemma_parse_wire(&self, tail: Seq<u8>) {
        let order = ByteOrder::BigEndian;
        let s = self.wire(order) + tail;
        let rest = self.certificate_list.wire(order) + tail;
        assert(s =~= self.length.wire(order) + rest);
        self.length.lemma_parse_wire(rest);
        self.certificate_list.lemma_parse_wire(tail);
    }
}

impl HandshakeBody {
    /// The handshake decoder gives this body back from its bytes. It decodes
    /// what a server sends: a server hello, a certificate, a server hello
    /// done.
    pub open spec fn decodable(&self) -> bool {
        match self {
            HandshakeBody::ServerHello(body) => body.decodable(),
            HandshakeBody::Certificate(body) => body.decodable(),
            HandshakeBody::ServerHelloDone(_) => true,
            HandshakeBody::ClientHello(_) => false,
            HandshakeBody::ClientKeyExchange(_) => false,
        }
    }
}

/// The bytes of a body decode, under the type of the body, to the body.
pub proof fn lemma_parse_wire_handshake_body(body: HandshakeBody)
    requires
        body.decodable(),
    ensures
        parse_handshake_body(body.spec_msg_type(), body.wire(ByteOrder::BigEndian)) == Ok::<
            _,
            Error,
        >(body@),
{
    match body {
        HandshakeBody::ServerHello(v) => {
            lemma_round_trip(v);
        },
        HandshakeBody::Certificate(v) => {
            lemma_round_trip(v);
        },
        _ => {},
    }
}

impl RoundTrip for Handshake {
    /// The header agrees with the body, and the body is one that the decoder
    /// gives back.
    open spec fn decodable(&self) -> bool {
        &&& self.wf()
        &&& self.body.decodable()
    }

    proof fn lemma_parse_wire(&self, tail: Seq<u8>) {
        let order = ByteOrder::BigEndian;
        let s = self.wire(order) + tail;
        let t2 = self.body.wire(order) + tail;
        let t1 = self.length.wire(order) + t2;
        assert(s =~= self.msg_type.wire(order) + t1);
        self.msg_type.lemma_parse_wire(t1);
        self.length.lemma_parse_wire(t2);
        assert(t2.take(self.length@ as int) =~= self.body.wire(order));
        assert(t2.skip(self.length@ as int) =~= tail);
        lemma_parse_wire_handshake_body(self.body);
    }
}

impl RoundTrip for Alert {
    open spec fn decodable(&self) -> bool {
        true
    }

    proof fn lemma_parse_wire(&self, tail: Seq<u8>) {
        let order = ByteOrder::BigEndian;
        let s = self.wire(order) + tail;
        let rest = self.description.wire(order) + tail;
        assert(s =~= self.level.wire(order) + rest);
        self.level.lemma_parse_wire(rest);
        self.description.lemma_parse_wire(tail);
    }
}

impl Fragment {
    /// The record decoder gives this fragment back from its bytes.
    pub open spec fn decodable(&self) -> bool {
        match self {
            Fragment::Handshake(handshake) => handshake.decodable(),
            Fragment::ChangeCipherSpec(_) => true,
            Fragment::Alert(_) => true,
        }
    }
}

/// The bytes of a fragment decode, under the content type of the fragment, to
/// the fragment.
pub proof fn lemma_parse_wire_fragment(fragment: Fragment)
    requires
        fragment.decodable(),
    ensures
        parse_fragment(fragment.spec_content_type(), fragment.wire(ByteOrder::BigEndian)) == Ok::<
            _,
            Error,
        >(fragment@),
{
    match fragment {
        Fragment::Handshake(v) => {
            lemma_round_trip(v);
        },
        Fragment::ChangeCipherSpec(v) => {
            lemma_round_trip(v);
        },
        Fragment::Alert(v) => {
            lemma_round_trip(v);
        },
    }
}

impl RoundTrip for TLSRecord {
    /// The header agrees with the fragment, and the fragment is one that the
    /// decoder gives back.
    open spec fn decodable(&self) -> bool {
        &&& self.wf()
        &&& self.fragment.decodable()
    }

    proof fn lemma_parse_wire(&self, tail: Seq<u8>) {
        let order = ByteOrder::BigEndian;
        let s = self.wire(order) + tail;
        let t3 = self.fragment.wire(order) + tail;
        let t2 = self.length.wire(order) + t3;
        let t1 = self.protocol_version.wire(order) + t2;
        assert(s =~= self.content_type.wire(order) + t1);
        self.content_type.lemma_parse_wire(t1);
        self.protocol_version.lemma_parse_wire(t2);
        self.length.lemma_parse_wire(t3);
        assert(t3.take(self.length as int) =~= self.fragment.wire(order));
        assert(t3.skip(self.length as int) =~= tail);
        lemma_parse_wire_fragment(self.fragment);
    }
}

/// Decoding the bytes of records written one after the other gives the
/// records back, in their order, and uses up all the bytes.
pub proof fn lemma_records_round_trip(records: Seq<TLSRecord>)
    requires
        forall|i: int| 0 <= i < records.len() ==> (#[trigger] records[i]).decodable(),
    ensures
        parse_records(wire_seq(records, ByteOrder::BigEndian)) == (
            view_seq(records),
            None::<Error>,
        ),
    decreases records.len(),
{
    let order = ByteOrder::BigEndian;
    if records.len() == 0 {
        assert(view_seq(records) =~= Seq::<TLSRecordView>::empty());
    } else {
        let first = records[0];
        let others = records.skip(1);
        let tail = wire_seq(others, order);
        assert(records =~= seq![first] + others);
        lemma_wire_seq_concat(seq![first], others, order);
        lemma_wire_seq_one(first, order);
        first.lemma_parse_wire(tail);
        TLSRecord::lemma_parse_advances(first.wire(order) + tail);
        assert forall|i: int| 0 <= i < others.len() implies (#[trigger] others[i]).decodable() by {
            assert(others[i] == records[i + 1]);
        }
        lemma_records_round_trip(others);
        assert(view_seq(records) =~= seq![first@] + view_seq(others));
    }
}

/// Decoding the bytes of two records written back to back gives exactly the
/// two records, in their order, and uses up all the bytes.
pub proof fn lemma_two_records_round_trip(first: TLSRecord, second: TLSRecord)
    requires
        first.decodable(),
        second.decodable(),
    ensures
        parse_records(first.wire(ByteOrder::BigEndian) + second.wire(ByteOrder::BigEndian)) == (
            seq![first@, second@],
            None::<Error>,
        ),
{
    let order = ByteOrder::BigEndian;
    let records = seq![first, second];
    lemma_records_round_trip(records);
    assert(records.drop_last() =~= seq![first]);
    lemma_wire_seq_one(first, order);
    assert(wire_seq(records, order) =~= first.wire(order) + second.wire(order));
    assert(view_seq(records) =~= seq![first@, second@]);
}

/// A type whose bytes are told by its value alone.
pub trait WireOfView: Serialize + View {
    /// Two values with the same view have the same bytes.
    proof fn lemma_wire_of_view(&self, other: &Self, order: ByteOrder)
        requires
            self@ == other@,
        ensures
            self.wire(order) == other.wire(order),
    ;
}

impl WireOfView for u8 {
    proof fn lemma_wire_of_view(&self, other: &u8, order: ByteOrder) {
    }
}

impl WireOfView for u16 {
    proof fn lemma_wire_of_view(&self, other: &u16, order: ByteOrder) {
    }
}

impl WireOfView for u32 {
    proof fn lemma_wire_of_view(&self, other: &u32, order: ByteOrder) {
    }
}

impl WireOfView for u24 {
    proof fn lemma_wire_of_view(&self, other: &u24, order: ByteOrder) {
    }
}

/// Two sequences whose elements have the same views, one by one, have the same
/// bytes.
pub proof fn lemma_wire_seq_of_view<D: WireOfView>(a: Seq<D>, b: Seq<D>, order: ByteOrder)
    requires
        view_seq(a) == view_seq(b),
    ensures
        wire_seq(a, order) == wire_seq(b, order),
    decreases a.len(),
{
    assert(a.len() == view_seq(a).len());
    assert(b.len() == view_seq(b).len());
    if a.len() > 0 {
        let n = a.len() - 1;
        assert(view_seq(a)[n] == a[n]@);
        assert(view_seq(b)[n] == b[n]@);
        assert(view_seq(a.drop_last()) =~= view_seq(a).drop_last());
        assert(view_seq(b.drop_last()) =~= view_seq(b).drop_last());
        lemma_wire_seq_of_view(a.drop_last(), b.drop_last(), order);
        a.last().lemma_wire_of_view(&b.last(), order);
    }
}

impl<T: WireOfView, D: WireOfView> WireOfView for Vector<T, D> {
    proof fn lemma_wire_of_view(&self, other: &Vector<T, D>, order: ByteOrder) {
        self.length.lemma_wire_of_view(&other.length, order);
        lemma_wire_seq_of_view(self.data@, other.data@, order);
    }
}

impl WireOfView for Random {
    proof fn lemma_wire_of_view(&self, other: &Random, order: ByteOrder) {
    }
}

impl WireOfView for SignatureAndHashAlgorithm {
    proof fn lemma_wire_of_view(&self, other: &SignatureAndHashAlgorithm, order: ByteOrder) {
    }
}

impl WireOfView for ExtensionData {
    proof fn lemma_wire_of_view(&self, other: &ExtensionData, order: ByteOrder) {
        match (self, other) {
            (ExtensionData::SignatureAlgorithms(a), ExtensionData::SignatureAlgorithms(b)) => {
                a.lemma_wire_of_view(b, order);
            },
        }
    }
}

impl WireOfView for Extension {
    proof fn lemma_wire_of_view(&self, other: &Extension, order: ByteOrder) {
        self.data.lemma_wire_of_view(&other.data, order);
    }
}

impl WireOfView for ClientHello {
    proof fn lemma_wire_of_view(&self, other: &ClientHello, order: ByteOrder) {
        self.random.lemma_wire_of_view(&other.random, order);
        self.session_id.lemma_wire_of_view(&other.session_id, order);
        self.cipher_suites.lemma_wire_of_view(&other.cipher_suites, order);
        self.compression_methods.lemma_wire_of_view(&other.compression_methods, order);
        self.extensions.lemma_wire_of_view(&other.extensions, order);
    }
}

impl WireOfView for ServerHello {
    proof fn lemma_wire_of_view(&self, other: &ServerHello, order: ByteOrder) {
        self.random.lemma_wire_of_view(&other.random, order);
        self.session_id.lemma_wire_of_view(&other.session_id, order);
        self.extensions.lemma_wire_of_view(&other.extensions, order);
    }
}

impl WireOfView for Certificate {
    proof fn lemma_wire_of_view(&self, other: &Certificate, order: ByteOrder) {
        self.certificate_list.lemma_wire_of_view(&other.certificate_list, order);
    }
}

impl WireOfView for HandshakeBody {
    proof fn lemma_wire_of_view(&self, other: &HandshakeBody, order: ByteOrder) {
        match (self, other) {
            (HandshakeBody::ClientHello(a), HandshakeBody::ClientHello(b)) => {
                a.lemma_wire_of_view(b, order);
            },
            (HandshakeBody::ServerHello(a), HandshakeBody::ServerHello(b)) => {
                a.lemma_wire_of_view(b, order);
            },
            (HandshakeBody::Certificate(a), HandshakeBody::Certificate(b)) => {
                a.lemma_wire_of_view(b, order);
            },
            (HandshakeBody::ClientKeyExchange(a), HandshakeBody::ClientKeyExchange(b)) => {
                a.lemma_wire_of_view(b, order);
            },
            _ => {},
        }
    }
}

impl WireOfView for Handshake {
    proof fn lemma_wire_of_view(&self, other: &Handshake, order: ByteOrder) {
        self.body.lemma_wire_of_view(&other.body, order);
    }
}

impl WireOfView for Alert {
    proof fn lemma_wire_of_view(&self, other: &Alert, order: ByteOrder) {
    }
}

impl WireOfView for Fragment {
    proof fn lemma_wire_of_view(&self, other: &Fragment, order: ByteOrder) {
        match (self, other) {
            (Fragment::Handshake(a), Fragment::Handshake(b)) => {
                a.lemma_wire_of_view(b, order);
            },
            _ => {},
        }
    }
}

impl WireOfView for TLSRecord {
    proof fn lemma_wire_of_view(&self, other: &TLSRecord, order: ByteOrder) {
        self.fragment.lemma_wire_of_view(&other.fragment, order);
    }
}

/// Whether the header of a handshake message agrees with its body is told by
/// the view alone.
pub proof fn lemma_handshake_wf_of_view(handshake: Handshake, other: Handshake)
    requires
        handshake@ == other@,
        handshake.wf(),
    ensures
        other.wf(),
{
    handshake.body.lemma_wire_of_view(&other.body, ByteOrder::BigEndian);
}

/// Whether the header of a record agrees with its fragment is told by the view
/// alone.
pub proof fn lemma_record_wf_of_view(record: TLSRecord, other: TLSRecord)
    requires
        record@ == other@,
        record.wf(),
    ensures
        other.wf(),
{
    record.fragment.lemma_wire_of_view(&other.fragment, ByteOrder::BigEndian);
}

/// The lengths stay accurate through encoding and decoding: the handshake
/// message that the decoder gives for the bytes of a decodable one holds, in
/// its length field, the number of bytes of its own body.
pub proof fn lemma_decoded_handshake_length(handshake: Handshake, decoded: Handshake)
    requires
        handshake.decodable(),
        Handshake::parse(handshake.wire(ByteOrder::BigEndian)) is Ok,
        Handshake::parse(handshake.wire(ByteOrder::BigEndian))->Ok_0.0 == decoded@,
    ensures
        decoded.length@ == decoded.body.wire(ByteOrder::BigEndian).len(),
        decoded.wf(),
{
    lemma_round_trip(handshake);
    lemma_handshake_wf_of_view(handshake, decoded);
}

/// The lengths stay accurate through encoding and decoding: the record that
/// the decoder gives for the bytes of a decodable one holds, in its length
/// field, the number of bytes of its own fragment.
pub proof fn lemma_decoded_record_length(record: TLSRecord, decoded: TLSRecord)
    requires
        record.decodable(),
        TLSRecord::parse(record.wire(ByteOrder::BigEndian)) is Ok,
        TLSRecord::parse(record.wire(ByteOrder::BigEndian))->Ok_0.0 == decoded@,
    ensures
        decoded.length == decoded.fragment.wire(ByteOrder::BigEndian).len(),
        decoded.wf(),
{
    lemma_round_trip(record);
    lemma_record_wf_of_view(record, decoded);
}

} // verus!
