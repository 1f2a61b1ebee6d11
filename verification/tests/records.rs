use tls_codec::endian::ByteOrder;
use tls_codec::error::{Error, Kind};
use tls_codec::ser::to_bytes;
use tls_codec::tls::{
    deserialize_tls_record, u24, Alert, AlertDescription, AlertLevel, Buffer, Certificate,
    ChangeCipherSpec, CipherSuite, CompressionMethod, ContentType, Deserialize, Extensions,
    Fragment, Handshake, HandshakeBody, HandshakeType, Opaque, ProtocolVersion, Random,
    ServerHello, TLSRecord,
};

fn record(fragment: Fragment) -> TLSRecord {
    TLSRecord::new(ProtocolVersion::TLSv1_2, fragment).unwrap()
}

fn server_hello_record() -> TLSRecord {
    let hello = ServerHello {
        protocol_version: ProtocolVersion::TLSv1_2,
        random: Random { gmt_unix_time: 7, random_bytes: [3; 28] },
        session_id: Opaque::<u8> { length: 2, data: vec![0xCA, 0xFE] },
        cipher_suite: CipherSuite::TLS_RSA_WITH_AES_128_GCM_SHA256,
        compression_method: CompressionMethod::Null,
        extensions: Extensions { length: 0, data: vec![] },
    };
    record(Fragment::Handshake(Handshake::new(HandshakeBody::ServerHello(hello)).unwrap()))
}

fn certificate_record() -> TLSRecord {
    let der = vec![0x30, 0x82, 0x01, 0x0A, 0x55];
    let certificate = Certificate {
        length: u24::from(8u16),
        certificate_list: Opaque::<u24> { length: u24::from(5u16), data: der },
    };
    record(Fragment::Handshake(Handshake::new(HandshakeBody::Certificate(certificate)).unwrap()))
}

fn done_record() -> TLSRecord {
    record(Fragment::Handshake(Handshake::new(HandshakeBody::ServerHelloDone(())).unwrap()))
}

fn bytes_of(record: &TLSRecord) -> Vec<u8> {
    to_bytes(record, ByteOrder::BigEndian).unwrap()
}

#[test]
fn server_hello_record_round_trips() {
    let sent = server_hello_record();
    let bytes = bytes_of(&sent);
    let (rest, decoded) = TLSRecord::deserialize(Buffer::new(&bytes, bytes.len())).unwrap();
    assert_eq!(decoded, sent);
    assert_eq!(rest.length(), 0);
}

#[test]
fn certificate_record_round_trips() {
    let sent = certificate_record();
    let bytes = bytes_of(&sent);
    assert_eq!(
        bytes,
        vec![22, 3, 3, 0, 15, 11, 0, 0, 11, 0, 0, 8, 0, 0, 5, 0x30, 0x82, 0x01, 0x0A, 0x55]
    );
    let (records, error) = deserialize_tls_record(&bytes, bytes.len());
    assert_eq!(error, None);
    assert_eq!(records, vec![sent]);
}

#[test]
fn server_hello_done_record_round_trips() {
    let sent = done_record();
    let bytes = bytes_of(&sent);
    assert_eq!(bytes, vec![22, 3, 3, 0, 4, 14, 0, 0, 0]);
    let (records, error) = deserialize_tls_record(&bytes, bytes.len());
    assert_eq!(error, None);
    assert_eq!(records, vec![sent]);
}

#[test]
fn change_cipher_spec_record_round_trips() {
    let sent = record(Fragment::ChangeCipherSpec(ChangeCipherSpec::ChangeCipherSpec));
    let bytes = bytes_of(&sent);
    assert_eq!(bytes, vec![20, 3, 3, 0, 1, 1]);
    let (records, error) = deserialize_tls_record(&bytes, bytes.len());
    assert_eq!(error, None);
    assert_eq!(records, vec![sent]);
}

#[test]
fn alert_record_round_trips() {
    let sent = record(Fragment::Alert(Alert {
        level: AlertLevel::Fatal,
        description: AlertDescription::BadCertificate,
    }));
    let bytes = bytes_of(&sent);
    assert_eq!(bytes, vec![21, 3, 3, 0, 2, 2, 42]);
    let (records, error) = deserialize_tls_record(&bytes, bytes.len());
    assert_eq!(error, None);
    assert_eq!(records, vec![sent]);
}

#[test]
fn two_records_back_to_back() {
    let first = server_hello_record();
    let second = certificate_record();
    let mut bytes = bytes_of(&first);
    bytes.extend_from_slice(&bytes_of(&second));
    let (records, error) = deserialize_tls_record(&bytes, bytes.len());
    assert_eq!(error, None);
    assert_eq!(records.len(), 2);
    assert_eq!(records[0], first);
    assert_eq!(records[1], second);
}

#[test]
fn three_records_and_trailing_bytes_beyond_the_length() {
    let all = [server_hello_record(), certificate_record(), done_record()];
    let mut bytes = Vec::new();
    for r in &all {
        bytes.extend_from_slice(&bytes_of(r));
    }
    let length = bytes.len();
    bytes.extend_from_slice(&[0xFF; 16]);
    let (records, error) = deserialize_tls_record(&bytes, length);
    assert_eq!(error, None);
    assert_eq!(records.as_slice(), &all);
}

#[test]
fn empty_input_holds_no_record() {
    let (records, error) = deserialize_tls_record(&[], 0);
    assert!(records.is_empty());
    assert_eq!(error, None);
    let (records, error) = deserialize_tls_record(&[22, 3, 3], 0);
    assert!(records.is_empty());
    assert_eq!(error, None);
}

#[test]
fn length_beyond_the_input_is_unexpected_eof() {
    let bytes = bytes_of(&done_record());
    let (records, error) = deserialize_tls_record(&bytes, bytes.len() + 1);
    assert!(records.is_empty());
    assert_eq!(error, Some(Error::UnexpectedEof));
}

#[test]
fn truncated_record_is_unexpected_eof() {
    let bytes = bytes_of(&server_hello_record());
    for n in 1..bytes.len() {
        let (records, error) = deserialize_tls_record(&bytes, n);
        assert!(records.is_empty());
        assert_eq!(error, Some(Error::UnexpectedEof));
    }
}

#[test]
fn truncated_second_record_keeps_the_first() {
    let first = done_record();
    let mut bytes = bytes_of(&first);
    bytes.extend_from_slice(&bytes_of(&certificate_record()));
    let (records, error) = deserialize_tls_record(&bytes, bytes.len() - 1);
    assert_eq!(records, vec![first]);
    assert_eq!(error, Some(Error::UnexpectedEof));
}

#[test]
fn handshake_longer_than_its_record_is_unexpected_eof() {
    let bytes = [22u8, 3, 3, 0, 4, 14, 0, 0, 1];
    let (records, error) = deserialize_tls_record(&bytes, bytes.len());
    assert!(records.is_empty());
    assert_eq!(error, Some(Error::UnexpectedEof));
    assert_eq!(
        Handshake::deserialize(Buffer::new(&[2, 0, 0, 40, 3, 3], 6)).err(),
        Some(Error::UnexpectedEof)
    );
}

#[test]
fn unknown_content_type_is_invalid_value() {
    let (records, error) = deserialize_tls_record(&[99, 3, 3, 0, 0], 5);
    assert!(records.is_empty());
    assert_eq!(error, Some(Error::InvalidValue { kind: Kind::ContentType, code: 99 }));
}

#[test]
fn unknown_handshake_type_is_invalid_value() {
    let bytes = [22u8, 3, 3, 0, 4, 99, 0, 0, 0];
    let (records, error) = deserialize_tls_record(&bytes, bytes.len());
    assert!(records.is_empty());
    assert_eq!(error, Some(Error::InvalidValue { kind: Kind::HandshakeType, code: 99 }));
}

#[test]
fn unknown_protocol_version_is_invalid_value() {
    let bytes = [22u8, 9, 9, 0, 0];
    let (_, error) = deserialize_tls_record(&bytes, bytes.len());
    assert_eq!(error, Some(Error::InvalidValue { kind: Kind::ProtocolVersion, code: 0x0909 }));
}

#[test]
fn unknown_change_cipher_spec_is_invalid_value() {
    let bytes = [20u8, 3, 3, 0, 1, 2];
    let (_, error) = deserialize_tls_record(&bytes, bytes.len());
    assert_eq!(error, Some(Error::InvalidValue { kind: Kind::ChangeCipherSpec, code: 2 }));
}

#[test]
fn application_data_is_unimplemented() {
    let bytes = [23u8, 3, 3, 0, 2, 0xAA, 0xBB];
    let (records, error) = deserialize_tls_record(&bytes, bytes.len());
    assert!(records.is_empty());
    assert_eq!(error, Some(Error::Unimplemented { kind: Kind::ContentType }));
}

#[test]
fn client_messages_are_unimplemented_in_a_handshake() {
    for code in [0u8, 1, 12, 13, 15, 16, 20] {
        let bytes = [22u8, 3, 3, 0, 4, code, 0, 0, 0];
        let (records, error) = deserialize_tls_record(&bytes, bytes.len());
        assert!(records.is_empty());
        assert_eq!(error, Some(Error::Unimplemented { kind: Kind::HandshakeType }));
    }
}

#[test]
fn error_after_good_records_keeps_them() {
    let first = done_record();
    let mut bytes = bytes_of(&first);
    bytes.extend_from_slice(&[23, 3, 3, 0, 0]);
    bytes.extend_from_slice(&bytes_of(&done_record()));
    let (records, error) = deserialize_tls_record(&bytes, bytes.len());
    assert_eq!(records, vec![first]);
    assert_eq!(error, Some(Error::Unimplemented { kind: Kind::ContentType }));
}

#[test]
fn fragment_shorter_than_its_declared_length_is_a_length_mismatch() {
    let bytes = [20u8, 3, 3, 0, 2, 1, 0];
    assert_eq!(
        TLSRecord::deserialize(Buffer::new(&bytes, 7)).err(),
        Some(Error::LengthMismatch)
    );
    let (records, error) = deserialize_tls_record(&bytes, bytes.len());
    assert!(records.is_empty());
    assert_eq!(error, Some(Error::LengthMismatch));

    let bytes = [21u8, 3, 3, 0, 3, 1, 0, 0];
    let (_, error) = deserialize_tls_record(&bytes, bytes.len());
    assert_eq!(error, Some(Error::LengthMismatch));
}

#[test]
fn length_mismatch_after_good_records_keeps_them() {
    let bytes = [21u8, 3, 3, 0, 2, 1, 0, 20, 3, 3, 0, 3, 1, 0xEE, 0xEE, 21, 3, 3, 0, 2, 1, 0];
    let (records, error) = deserialize_tls_record(&bytes, bytes.len());
    assert_eq!(records.len(), 1);
    assert_eq!(records[0].content_type, ContentType::Alert);
    assert_eq!(error, Some(Error::LengthMismatch));
}

#[test]
fn handshake_body_shorter_than_its_declared_length_is_a_length_mismatch() {
    assert_eq!(
        Handshake::deserialize(Buffer::new(&[14, 0, 0, 2, 9, 9], 6)).err(),
        Some(Error::LengthMismatch)
    );
    let certificate = [11u8, 0, 0, 8, 0, 0, 5, 0, 0, 1, 0x30, 0xEE];
    assert_eq!(
        Handshake::deserialize(Buffer::new(&certificate, 12)).err(),
        Some(Error::LengthMismatch)
    );
    let bytes = [22u8, 3, 3, 0, 6, 14, 0, 0, 2, 9, 9];
    let (records, error) = deserialize_tls_record(&bytes, bytes.len());
    assert!(records.is_empty());
    assert_eq!(error, Some(Error::LengthMismatch));
}

#[test]
fn two_handshake_messages_in_one_record_are_a_length_mismatch() {
    let bytes = [22u8, 3, 3, 0, 8, 14, 0, 0, 0, 14, 0, 0, 0];
    let (records, error) = deserialize_tls_record(&bytes, bytes.len());
    assert!(records.is_empty());
    assert_eq!(error, Some(Error::LengthMismatch));
}

#[test]
fn error_in_a_fragment_comes_before_the_length_mismatch() {
    let bytes = [21u8, 3, 3, 0, 3, 9, 0, 0];
    let (_, error) = deserialize_tls_record(&bytes, bytes.len());
    assert_eq!(error, Some(Error::InvalidValue { kind: Kind::AlertLevel, code: 9 }));
    let bytes = [22u8, 3, 3, 0, 6, 16, 0, 0, 2, 9, 9];
    let (_, error) = deserialize_tls_record(&bytes, bytes.len());
    assert_eq!(error, Some(Error::Unimplemented { kind: Kind::HandshakeType }));
}

#[test]
fn record_decoder_leaves_the_rest() {
    let mut bytes = bytes_of(&done_record());
    bytes.extend_from_slice(&[1, 2, 3]);
    let (rest, decoded) = TLSRecord::deserialize(Buffer::new(&bytes, bytes.len())).unwrap();
    assert_eq!(decoded, done_record());
    assert_eq!(rest.length(), 3);
    assert_eq!(decoded.fragment, Fragment::Handshake(Handshake {
        msg_type: HandshakeType::ServerHelloDone,
        length: u24::from(0u16),
        body: HandshakeBody::ServerHelloDone(()),
    }));
}

#[test]
fn decoded_records_encode_to_the_bytes_they_came_from() {
    let inputs: [&[u8]; 4] = [
        &[21, 3, 1, 0, 2, 2, 40],
        &[20, 3, 3, 0, 1, 1],
        &[22, 3, 3, 0, 4, 14, 0, 0, 0],
        &[22, 3, 2, 0, 12, 11, 0, 0, 8, 0, 0, 99, 0, 0, 2, 0x30, 0x31],
    ];
    for bytes in inputs {
        let (rest, decoded) = TLSRecord::deserialize(Buffer::new(bytes, bytes.len())).unwrap();
        assert_eq!(rest.length(), 0);
        assert_eq!(bytes_of(&decoded), bytes);
        assert_eq!(decoded.length as usize, bytes.len() - 5);
        assert_eq!(
            decoded.length as usize,
            to_bytes(&decoded.fragment, ByteOrder::BigEndian).unwrap().len()
        );
    }
}

#[test]
fn decoded_record_keeps_accurate_lengths() {
    let sent = server_hello_record();
    let bytes = bytes_of(&sent);
    let (_, decoded) = TLSRecord::deserialize(Buffer::new(&bytes, bytes.len())).unwrap();
    assert_eq!(
        decoded.length as usize,
        to_bytes(&decoded.fragment, ByteOrder::BigEndian).unwrap().len()
    );
    match decoded.fragment {
        Fragment::Handshake(handshake) => assert_eq!(
            handshake.length.to_usize(),
            to_bytes(&handshake.body, ByteOrder::BigEndian).unwrap().len()
        ),
        other => panic!("unexpected fragment {:?}", other),
    }
}
