//! What the length fields guarantee: input that ends before a declared length
//! is reported as incomplete, opaque bytes come out as they went in, and what
//! was decoded encodes to the bytes it came from.

use vstd::prelude::*;
use crate::endian::{
    ByteOrder, be_bytes, be_value, lemma_be_bytes_of_be_value, lemma_be_value_explicit,
    lemma_be_value_of_be_bytes, lemma_int_bytes_len,
};
use crate::error::Error;
use crate::ser::Serialize;
use crate::ser::basic::lemma_wire_seq_bytes;
use crate::tls::codes::{
    AlertDescription, AlertLevel, ChangeCipherSpec, ContentType, HandshakeType, ProtocolVersion,
};
use crate::tls::de::Deserialize;
use crate::tls::round_trip::RoundTrip;
use crate::tls::vector::lemma_parse_elements_bytes;
use crate::tls::handshake::{
    Certificate, Handshake, HandshakeBody, HandshakeView, parse_certificate, parse_handshake,
};
use crate::tls::vector::lemma_view_seq_bytes;
use crate::tls::{Fragment, TLSRecord, TLSRecordView, parse_record};

verus! {

/// A record whose header is sound but declares more bytes of fragment than
/// follow it is reported as `UnexpectedEof`.
pub proof fn lemma_truncated_record(s: Seq<u8>)
    requires
        s.len() >= 5,
        ContentType::parse(s) is Ok,
        ProtocolVersion::parse(s.skip(1)) is Ok,
        be_value(s.subrange(3, 5)) > s.len() - 5,
    ensures
        parse_record(s) == Err::<(TLSRecordView, Seq<u8>), Error>(
            Error::UnexpectedEof,
        ),
{
    lemma_be_value_explicit(s.subrange(3, 5));
    assert(s.skip(1).skip(2) =~= s.skip(3));
    assert(s.skip(3).take(2) =~= s.subrange(3, 5));
    assert(s.skip(3).skip(2) =~= s.skip(5));
}

/// A handshake message whose type is known but which declares more bytes of
/// body than follow its header is reported as `UnexpectedEof`.
pub proof fn lemma_truncated_handshake(s: Seq<u8>)
    requires
        s.len() >= 4,
        HandshakeType::parse(s) is Ok,
        be_value(s.subrange(1, 4)) > s.len() - 4,
    ensures
        parse_handshake(s) == Err::<(HandshakeView, Seq<u8>), Error>(
            Error::UnexpectedEof,
        ),
{
    assert(s.skip(1).take(3) =~= s.subrange(1, 4));
    assert(s.skip(1).skip(3) =~= s.skip(4));
}

/// The bytes of a record cut short anywhere are reported as `UnexpectedEof`.
pub proof fn lemma_record_cut_short(record: TLSRecord, n: int)
    requires
        record.wf(),
        0 <= n < record.wire(ByteOrder::BigEndian).len(),
    ensures
        parse_record(record.wire(ByteOrder::BigEndian).take(n)) == Err::<
            (TLSRecordView, Seq<u8>),
            Error,
        >(Error::UnexpectedEof),
{
    let order = ByteOrder::BigEndian;
    let whole = record.wire(order);
    let s = whole.take(n);
    let length = record.length as int;
    lemma_int_bytes_len(record.protocol_version.spec_code() as int, 2, order);
    lemma_int_bytes_len(length, 2, order);
    let t3 = record.fragment.wire(order);
    let t2 = record.length.wire(order) + t3;
    let t1 = record.protocol_version.wire(order) + t2;
    assert(whole =~= record.content_type.wire(order) + t1);
    if n >= 1 {
        assert(s =~= record.content_type.wire(order) + t1.take(n - 1));
        record.content_type.lemma_parse_wire(t1.take(n - 1));
        if n >= 3 {
            assert(t1.take(n - 1) =~= record.protocol_version.wire(order) + t2.take(n - 3));
            record.protocol_version.lemma_parse_wire(t2.take(n - 3));
            if n >= 5 {
                assert(t2.take(n - 3) =~= record.length.wire(order) + t3.take(n - 5));
                lemma_be_value_of_be_bytes(length);
                assert(t2.take(n - 3).take(2) =~= be_bytes(length, 2));
                assert(t2.take(n - 3).skip(2) =~= t3.take(n - 5));
            }
        }
    }
}

/// A decoded certificate message holds the bytes of the certificate list
/// exactly as they stand in the input, and encoding it gives the bytes it was
/// decoded from.
pub proof fn lemma_certificate_pass_through(s: Seq<u8>, certificate: Certificate)
    requires
        parse_certificate(s) is Ok,
        parse_certificate(s)->Ok_0.0 == certificate@,
    ensures
        s.len() >= 6 + certificate.certificate_list.length@,
        certificate.certificate_list.data@ == s.subrange(
            6,
            6 + certificate.certificate_list.length@ as int,
        ),
        certificate.wire(ByteOrder::BigEndian) + parse_certificate(s)->Ok_0.1 == s,
{
    let order = ByteOrder::BigEndian;
    let list = certificate.certificate_list;
    let size = list.length@ as int;
    lemma_view_seq_bytes(list.data@);
    lemma_wire_seq_bytes(list.data@, order);
    lemma_be_bytes_of_be_value(s.take(3));
    lemma_be_bytes_of_be_value(s.skip(3).take(3));
    lemma_parse_elements_bytes(s.skip(3).skip(3).take(size));
    assert(s.skip(3).skip(3).take(size) =~= s.subrange(6, 6 + size));
    assert(certificate.wire(order) + parse_certificate(s)->Ok_0.1 =~= s);
}

/// A handshake message that was decoded, other than a server hello, encodes
/// to the bytes it was decoded from, and its header agrees with its body. (A
/// decoded server hello does not hold the extensions that were skipped.)
pub proof fn lemma_decoded_handshake_bytes(s: Seq<u8>, handshake: Handshake)
    requires
        parse_handshake(s) is Ok,
        parse_handshake(s)->Ok_0.0 == handshake@,
        !(handshake.body is ServerHello),
    ensures
        handshake.wire(ByteOrder::BigEndian) + parse_handshake(s)->Ok_0.1 == s,
        handshake.wf(),
{
    let order = ByteOrder::BigEndian;
    let rest = parse_handshake(s)->Ok_0.1;
    HandshakeType::lemma_code_of_from_code(s[0], handshake.msg_type);
    let size = handshake.length@ as int;
    lemma_be_value_explicit(s.skip(1).take(3));
    lemma_be_bytes_of_be_value(s.skip(1).take(3));
    let body = s.skip(1).skip(3).take(size);
    match handshake.body {
        HandshakeBody::Certificate(certificate) => {
            lemma_certificate_pass_through(body, certificate);
            assert(certificate.wire(order) =~= body);
        },
        HandshakeBody::ServerHelloDone(_) => {
            assert(handshake.body.wire(order) =~= body);
        },
        _ => {},
    }
    assert(handshake.body.wire(order) == body);
    assert(rest == s.skip(1).skip(3).skip(size));
    assert(handshake.wire(order) + rest =~= s);
}

/// A record that was decoded, other than one with a server hello, encodes to
/// the bytes it was decoded from, and its header agrees with its fragment: its
/// length field holds the number of bytes of its fragment.
pub proof fn lemma_decoded_record_bytes(s: Seq<u8>, record: TLSRecord)
    requires
        parse_record(s) is Ok,
        parse_record(s)->Ok_0.0 == record@,
        !(record.fragment is Handshake && record.fragment->Handshake_0.body is ServerHello),
    ensures
        record.wire(ByteOrder::BigEndian) + parse_record(s)->Ok_0.1 == s,
        record.wf(),
{
    let order = ByteOrder::BigEndian;
    let rest = parse_record(s)->Ok_0.1;
    ContentType::lemma_code_of_from_code(s[0], record.content_type);
    let version = s.skip(1).take(2);
    lemma_be_value_explicit(version);
    lemma_be_bytes_of_be_value(version);
    ProtocolVersion::lemma_code_of_from_code(be_value(version) as u16, record.protocol_version);
    let length = s.skip(1).skip(2).take(2);
    lemma_be_value_explicit(length);
    lemma_be_bytes_of_be_value(length);
    let size = record.length as int;
    let bytes = s.skip(1).skip(2).skip(2).take(size);
    match record.fragment {
        Fragment::Handshake(handshake) => {
            lemma_decoded_handshake_bytes(bytes, handshake);
            assert(handshake.wire(order) =~= bytes);
        },
        Fragment::ChangeCipherSpec(spec) => {
            ChangeCipherSpec::lemma_code_of_from_code(bytes[0], spec);
            assert(spec.wire(order) =~= bytes);
        },
        Fragment::Alert(alert) => {
            AlertLevel::lemma_code_of_from_code(bytes[0], alert.level);
            AlertDescription::lemma_code_of_from_code(bytes[1], alert.description);
            assert(alert.wire(order) =~= bytes);
        },
    }
    assert(record.fragment.wire(order) == bytes);
    assert(rest == s.skip(1).skip(2).skip(2).skip(size));
    assert(record.wire(order) + rest =~= s);
}

} // verus!
