use tls_codec::endian::ByteOrder;
use tls_codec::error::{Error, Kind};
use tls_codec::ser::{bytes_size, to_bytes};
use tls_codec::tls::{
    u24, Alert, AlertDescription, AlertLevel, Buffer, Certificate, ChangeCipherSpec, CipherSuite,
    CipherSuites, ClientHello, ClientKeyExchange, CompressionMethod, CompressionMethods,
    ContentType, Deserialize, Extension, ExtensionData, ExtensionType, Extensions, Fragment,
    Handshake, HandshakeBody, HandshakeType, HashAlgorithm, Opaque, PreMasterSecret,
    ProtocolVersion, Random, ServerHello, SignatureAlgorithm, SignatureAndHashAlgorithm, TLSRecord,
    Vector,
};

fn signature_algorithms() -> Extensions {
    Extensions {
        length: 8,
        data: vec![Extension {
            extension_type: ExtensionType::SignatureAlgorithms,
            data: Vector {
                length: 4,
                data: vec![ExtensionData::SignatureAlgorithms(Vector {
                    length: 2,
                    data: vec![SignatureAndHashAlgorithm {
                        hash: HashAlgorithm::SHA256,
                        signature: SignatureAlgorithm::RSA,
                    }],
                })],
            },
        }],
    }
}

fn client_hello() -> ClientHello {
    ClientHello {
        protocol_version: ProtocolVersion::TLSv1_2,
        random: Random { gmt_unix_time: 0, random_bytes: [0; 28] },
        session_id: Opaque::<u8> { length: 0, data: vec![] },
        cipher_suites: CipherSuites {
            length: 2,
            data: vec![CipherSuite::TLS_RSA_WITH_AES_128_GCM_SHA256],
        },
        compression_methods: CompressionMethods { length: 1, data: vec![CompressionMethod::Null] },
        extensions: signature_algorithms(),
    }
}

fn client_hello_bytes() -> Vec<u8> {
    let mut expected = vec![0x03, 0x03];
    expected.extend_from_slice(&[0u8; 32]);
    expected.push(0x00);
    expected.extend_from_slice(&[0x00, 0x02, 0x00, 0x9C]);
    expected.extend_from_slice(&[0x01, 0x00]);
    expected.extend_from_slice(&[0x00, 0x08, 0x00, 0x0D, 0x00, 0x04, 0x00, 0x02, 0x04, 0x01]);
    expected
}

fn server_hello(session_id: Vec<u8>) -> ServerHello {
    let mut random_bytes = [0u8; 28];
    for (i, b) in random_bytes.iter_mut().enumerate() {
        *b = i as u8 + 1;
    }
    ServerHello {
        protocol_version: ProtocolVersion::TLSv1_2,
        random: Random { gmt_unix_time: 0x5F00_0001, random_bytes },
        session_id: Opaque::<u8> { length: session_id.len() as u8, data: session_id },
        cipher_suite: CipherSuite::TLS_RSA_WITH_AES_128_GCM_SHA256,
        compression_method: CompressionMethod::Null,
        extensions: Extensions { length: 0, data: vec![] },
    }
}

#[test]
fn client_hello_encodes_to_the_exact_bytes() {
    let bytes = to_bytes(&client_hello(), ByteOrder::BigEndian).unwrap();
    assert_eq!(bytes, client_hello_bytes());
    assert_eq!(bytes.len(), 51);
}

#[test]
fn client_hello_in_handshake_in_record() {
    let handshake = Handshake::new(HandshakeBody::ClientHello(client_hello())).unwrap();
    assert_eq!(handshake.msg_type, HandshakeType::ClientHello);
    assert_eq!(handshake.length.to_usize(), 51);
    let record = TLSRecord::new(ProtocolVersion::TLSv1_2, Fragment::Handshake(handshake)).unwrap();
    assert_eq!(record.content_type, ContentType::Handshake);
    assert_eq!(record.length, 55);

    let mut expected = vec![22, 0x03, 0x03, 0x00, 55];
    expected.extend_from_slice(&[0x01, 0x00, 0x00, 51]);
    expected.extend_from_slice(&client_hello_bytes());
    assert_eq!(to_bytes(&record, ByteOrder::BigEndian).unwrap(), expected);
}

#[test]
fn record_length_is_the_size_of_the_fragment() {
    let fragment = Fragment::Alert(Alert {
        level: AlertLevel::Fatal,
        description: AlertDescription::HandshakeFailure,
    });
    let record = TLSRecord::new(ProtocolVersion::TLSv1_2, fragment).unwrap();
    assert_eq!(record.length as usize, bytes_size(&record.fragment).unwrap());
    assert_eq!(record.length, 2);
    assert_eq!(record.content_type, ContentType::Alert);

    let fragment = Fragment::ChangeCipherSpec(ChangeCipherSpec::ChangeCipherSpec);
    let record = TLSRecord::new(ProtocolVersion::TLSv1_1, fragment).unwrap();
    assert_eq!(record.length, 1);
    assert_eq!(record.content_type, ContentType::ChangeCipherSpec);
    assert_eq!(record.protocol_version, ProtocolVersion::TLSv1_1);
}

#[test]
fn handshake_length_is_the_size_of_the_body() {
    let body = HandshakeBody::ServerHello(server_hello(vec![9; 32]));
    let size = bytes_size(&body).unwrap();
    let handshake = Handshake::new(body).unwrap();
    assert_eq!(handshake.length.to_usize(), size);
    assert_eq!(size, 2 + 32 + 1 + 32 + 2 + 1 + 2);
    assert_eq!(handshake.msg_type, HandshakeType::ServerHello);

    let done = Handshake::new(HandshakeBody::ServerHelloDone(())).unwrap();
    assert_eq!(done.length.to_usize(), 0);
    assert_eq!(done.msg_type, HandshakeType::ServerHelloDone);
}

#[test]
fn record_refuses_a_fragment_too_long_for_its_length_field() {
    let body: ClientKeyExchange = Opaque::<u16> { length: 0xFFFF, data: vec![0; 0xFFFF] };
    let handshake = Handshake::new(HandshakeBody::ClientKeyExchange(body)).unwrap();
    assert_eq!(handshake.length.to_usize(), 0x1_0001);
    assert_eq!(
        TLSRecord::new(ProtocolVersion::TLSv1_2, Fragment::Handshake(handshake)).err(),
        Some(Error::LengthMismatch)
    );
}

#[test]
fn handshake_refuses_a_body_too_long_for_its_length_field() {
    let list = Opaque::<u24> { length: u24::from(0xFF_FF_FFu32), data: vec![0; 0xFF_FF_FF] };
    let body = HandshakeBody::Certificate(Certificate { length: u24::from(2u16), certificate_list: list });
    assert_eq!(Handshake::new(body).err(), Some(Error::LengthMismatch));
}

#[test]
fn pre_master_secret_bytes() {
    let secret = PreMasterSecret {
        protocol_version: ProtocolVersion::TLSv1_2,
        random: Opaque::<u16> { length: 3, data: vec![7, 8, 9] },
    };
    assert_eq!(secret.to_bytes(ByteOrder::BigEndian), vec![0x03, 0x03, 0x00, 0x03, 7, 8, 9]);
    assert_eq!(secret.to_bytes(ByteOrder::LittleEndian), vec![0x03, 0x03, 0x03, 0x00, 7, 8, 9]);
}

#[test]
fn u24_encodes_as_three_bytes_high_byte_dropped() {
    let v = u24::from(0x01_FF_FF_FFu32);
    assert_eq!(to_bytes(&v, ByteOrder::BigEndian).unwrap(), vec![0xFF, 0xFF, 0xFF]);
    let v = u24::from(0x01_02_03u32);
    assert_eq!(to_bytes(&v, ByteOrder::BigEndian).unwrap(), vec![1, 2, 3]);
    assert_eq!(to_bytes(&v, ByteOrder::LittleEndian).unwrap(), vec![1, 2, 3]);
}

#[test]
fn enum_codes() {
    assert_eq!(ContentType::ChangeCipherSpec.code(), 20);
    assert_eq!(ContentType::Alert.code(), 21);
    assert_eq!(ContentType::Handshake.code(), 22);
    assert_eq!(ContentType::ApplicationData.code(), 23);
    assert_eq!(HandshakeType::HelloRequest.code(), 0);
    assert_eq!(HandshakeType::Certificate.code(), 11);
    assert_eq!(HandshakeType::Finished.code(), 20);
    assert_eq!(ProtocolVersion::SSLv3.code(), 0x0300);
    assert_eq!(ProtocolVersion::TLSv1_3.code(), 0x0304);
    assert_eq!(CipherSuite::TLS_AES_128_CCM_8_SHA256.code(), 0x1305);
    assert_eq!(HashAlgorithm::NONE.code(), 0);
    assert_eq!(AlertDescription::NoApplicationProtocol.code(), 120);
}

#[test]
fn enum_lookup_inverts_code() {
    assert_eq!(ContentType::try_from(22), Ok(ContentType::Handshake));
    assert_eq!(HandshakeType::try_from(14), Ok(HandshakeType::ServerHelloDone));
    assert_eq!(ProtocolVersion::try_from(0x0303), Ok(ProtocolVersion::TLSv1_2));
    assert_eq!(CipherSuite::try_from(0x009C), Ok(CipherSuite::TLS_RSA_WITH_AES_128_GCM_SHA256));
    assert_eq!(CipherSuite::try_from(0x000A), Ok(CipherSuite::TLS_RSA_WITH_3DES_EDE_CBC_SHA));
    assert_eq!(AlertLevel::try_from(2), Ok(AlertLevel::Fatal));
    assert_eq!(AlertDescription::try_from(86), Ok(AlertDescription::InappropriateFallback));
    assert_eq!(ExtensionType::try_from(13), Ok(ExtensionType::SignatureAlgorithms));
    assert_eq!(SignatureAlgorithm::try_from(3), Ok(SignatureAlgorithm::ECDSA));
    assert_eq!(HashAlgorithm::try_from(6), Ok(HashAlgorithm::SHA512));
    assert_eq!(CompressionMethod::try_from(0), Ok(CompressionMethod::Null));
    assert_eq!(ChangeCipherSpec::try_from(1), Ok(ChangeCipherSpec::ChangeCipherSpec));
}

#[test]
fn unknown_codes_are_invalid_values() {
    assert_eq!(
        ContentType::try_from(99),
        Err(Error::InvalidValue { kind: Kind::ContentType, code: 99 })
    );
    assert_eq!(
        HandshakeType::try_from(99),
        Err(Error::InvalidValue { kind: Kind::HandshakeType, code: 99 })
    );
    assert_eq!(
        ProtocolVersion::try_from(0x0305),
        Err(Error::InvalidValue { kind: Kind::ProtocolVersion, code: 0x0305 })
    );
    assert_eq!(
        CipherSuite::try_from(0x0003),
        Err(Error::InvalidValue { kind: Kind::CipherSuite, code: 3 })
    );
    assert_eq!(
        CompressionMethod::try_from(1),
        Err(Error::InvalidValue { kind: Kind::CompressionMethod, code: 1 })
    );
    assert_eq!(
        ExtensionType::try_from(0xFF01),
        Err(Error::InvalidValue { kind: Kind::ExtensionType, code: 0xFF01 })
    );
    assert_eq!(
        HashAlgorithm::try_from(7),
        Err(Error::InvalidValue { kind: Kind::HashAlgorithm, code: 7 })
    );
    assert_eq!(
        SignatureAlgorithm::try_from(4),
        Err(Error::InvalidValue { kind: Kind::SignatureAlgorithm, code: 4 })
    );
    assert_eq!(
        AlertLevel::try_from(0),
        Err(Error::InvalidValue { kind: Kind::AlertLevel, code: 0 })
    );
    assert_eq!(
        AlertDescription::try_from(1),
        Err(Error::InvalidValue { kind: Kind::AlertDescription, code: 1 })
    );
    assert_eq!(
        ChangeCipherSpec::try_from(0),
        Err(Error::InvalidValue { kind: Kind::ChangeCipherSpec, code: 0 })
    );
}

#[test]
fn client_hello_round_trips_without_session_id() {
    let hello = client_hello();
    let bytes = to_bytes(&hello, ByteOrder::BigEndian).unwrap();
    let (rest, decoded) = ClientHello::deserialize(Buffer::new(&bytes, bytes.len())).unwrap();
    assert_eq!(decoded, hello);
    assert_eq!(rest.length(), 0);
}

#[test]
fn client_hello_round_trips_with_session_id_and_several_suites() {
    let mut hello = client_hello();
    hello.session_id = Opaque::<u8> { length: 4, data: vec![1, 2, 3, 4] };
    hello.cipher_suites = CipherSuites {
        length: 6,
        data: vec![
            CipherSuite::TLS_RSA_WITH_AES_128_GCM_SHA256,
            CipherSuite::TLS_AES_256_GCM_SHA384,
            CipherSuite::TLS_NULL_WITH_NULL_NULL,
        ],
    };
    hello.extensions = Extensions { length: 0, data: vec![] };
    let bytes = to_bytes(&hello, ByteOrder::BigEndian).unwrap();
    let (rest, decoded) = ClientHello::deserialize(Buffer::new(&bytes, bytes.len())).unwrap();
    assert_eq!(decoded, hello);
    assert_eq!(rest.length(), 0);
}

#[test]
fn cipher_suite_list_with_odd_length_is_a_length_mismatch() {
    let bytes = [0x00u8, 0x03, 0x00, 0x9C, 0x13];
    assert_eq!(
        CipherSuites::deserialize(Buffer::new(&bytes, 5)).err(),
        Some(Error::LengthMismatch)
    );
}

#[test]
fn cipher_suite_list_with_unknown_suite_is_an_invalid_value() {
    let bytes = [0x00u8, 0x04, 0x00, 0x9C, 0xAB, 0xCD];
    assert_eq!(
        CipherSuites::deserialize(Buffer::new(&bytes, 6)).err(),
        Some(Error::InvalidValue { kind: Kind::CipherSuite, code: 0xABCD })
    );
}

#[test]
fn vector_longer_than_input_is_unexpected_eof() {
    let bytes = [0x00u8, 0x04, 0x00, 0x9C];
    assert_eq!(
        CipherSuites::deserialize(Buffer::new(&bytes, 4)).err(),
        Some(Error::UnexpectedEof)
    );
}

#[test]
fn opaque_round_trips() {
    let blob = Opaque::<u8> { length: 3, data: vec![0xDE, 0xAD, 0xBF] };
    let bytes = to_bytes(&blob, ByteOrder::BigEndian).unwrap();
    assert_eq!(bytes, vec![3, 0xDE, 0xAD, 0xBF]);
    let (rest, decoded) = Opaque::<u8>::deserialize(Buffer::new(&bytes, 4)).unwrap();
    assert_eq!(decoded, blob);
    assert_eq!(rest.length(), 0);

    let blob = Opaque::<u24> { length: u24::from(2u16), data: vec![5, 6] };
    let bytes = to_bytes(&blob, ByteOrder::BigEndian).unwrap();
    assert_eq!(bytes, vec![0, 0, 2, 5, 6]);
    let (_, decoded) = Opaque::<u24>::deserialize(Buffer::new(&bytes, 5)).unwrap();
    assert_eq!(decoded, blob);

    let blob = Opaque::<u16> { length: 1, data: vec![9] };
    let bytes = to_bytes(&blob, ByteOrder::BigEndian).unwrap();
    let (_, decoded) = Opaque::<u16>::deserialize(Buffer::new(&bytes, 3)).unwrap();
    assert_eq!(decoded, blob);
}

#[test]
fn random_round_trips() {
    let random = server_hello(vec![]).random;
    let bytes = to_bytes(&random, ByteOrder::BigEndian).unwrap();
    assert_eq!(bytes.len(), 32);
    assert_eq!(&bytes[..4], &[0x5F, 0x00, 0x00, 0x01]);
    assert_eq!(bytes[4], 1);
    assert_eq!(bytes[31], 28);
    let (rest, decoded) = Random::deserialize(Buffer::new(&bytes, 32)).unwrap();
    assert_eq!(decoded, random);
    assert_eq!(rest.length(), 0);
}

#[test]
fn server_hello_round_trips() {
    for session_id in [vec![], vec![0xAA; 32]] {
        let hello = server_hello(session_id);
        let bytes = to_bytes(&hello, ByteOrder::BigEndian).unwrap();
        let (rest, decoded) = ServerHello::deserialize(Buffer::new(&bytes, bytes.len())).unwrap();
        assert_eq!(decoded, hello);
        assert_eq!(decoded.skipped_extensions(), 0);
        assert_eq!(rest.length(), 0);
    }
}

#[test]
fn server_hello_reports_the_extensions_it_skipped() {
    let hello = server_hello(vec![1, 2]);
    let mut bytes = to_bytes(&hello, ByteOrder::BigEndian).unwrap();
    bytes.truncate(bytes.len() - 2);
    bytes.extend_from_slice(&[0x00, 0x05, 0xFF, 0x01, 0x00, 0x01, 0x00]);
    bytes.extend_from_slice(&[0xAA, 0xBB]);
    let (rest, decoded) = ServerHello::deserialize(Buffer::new(&bytes, bytes.len())).unwrap();
    assert_eq!(decoded.skipped_extensions(), 5);
    assert_eq!(decoded.extensions.length, 5);
    assert!(decoded.extensions.data.is_empty());
    assert_eq!(decoded.session_id, hello.session_id);
    assert_eq!(decoded.random, hello.random);
    assert_eq!(rest.length(), 2);
}

#[test]
fn server_hello_without_an_extension_block() {
    let hello = server_hello(vec![1, 2]);
    let mut bytes = to_bytes(&hello, ByteOrder::BigEndian).unwrap();
    bytes.truncate(bytes.len() - 2);
    let (rest, decoded) = ServerHello::deserialize(Buffer::new(&bytes, bytes.len())).unwrap();
    assert_eq!(decoded, hello);
    assert_eq!(decoded.skipped_extensions(), 0);
    assert_eq!(rest.length(), 0);
}

#[test]
fn server_hello_with_extensions_longer_than_the_input_is_unexpected_eof() {
    let hello = server_hello(vec![]);
    let mut bytes = to_bytes(&hello, ByteOrder::BigEndian).unwrap();
    bytes.truncate(bytes.len() - 2);
    bytes.extend_from_slice(&[0x00, 0x05, 0xFF, 0x01]);
    assert_eq!(
        ServerHello::deserialize(Buffer::new(&bytes, bytes.len())).err(),
        Some(Error::UnexpectedEof)
    );
    bytes.truncate(bytes.len() - 3);
    assert_eq!(
        ServerHello::deserialize(Buffer::new(&bytes, bytes.len())).err(),
        Some(Error::UnexpectedEof)
    );
}

#[test]
fn skipped_extensions_of_a_value_that_holds_its_extensions() {
    let mut hello = server_hello(vec![]);
    hello.extensions = signature_algorithms();
    assert_eq!(hello.skipped_extensions(), 0);
}

#[test]
fn server_hello_in_a_handshake_keeps_the_count_of_skipped_bytes() {
    let hello = server_hello(vec![]);
    let mut body = to_bytes(&hello, ByteOrder::BigEndian).unwrap();
    body.truncate(body.len() - 2);
    body.extend_from_slice(&[0x00, 0x04, 0xFF, 0x01, 0x00, 0x00]);
    let mut bytes = vec![2, 0, 0, body.len() as u8];
    bytes.extend_from_slice(&body);
    let (rest, handshake) = Handshake::deserialize(Buffer::new(&bytes, bytes.len())).unwrap();
    assert_eq!(rest.length(), 0);
    match handshake.body {
        HandshakeBody::ServerHello(decoded) => assert_eq!(decoded.skipped_extensions(), 4),
        other => panic!("unexpected body {:?}", other),
    }
}

#[test]
fn server_hello_with_unknown_cipher_suite_is_rejected() {
    let hello = server_hello(vec![]);
    let mut bytes = to_bytes(&hello, ByteOrder::BigEndian).unwrap();
    bytes[35] = 0xAB;
    bytes[36] = 0xCD;
    assert_eq!(
        ServerHello::deserialize(Buffer::new(&bytes, bytes.len())).err(),
        Some(Error::InvalidValue { kind: Kind::CipherSuite, code: 0xABCD })
    );
}

#[test]
fn alert_round_trips() {
    let alert = Alert { level: AlertLevel::Warning, description: AlertDescription::CloseNotify };
    let bytes = to_bytes(&alert, ByteOrder::BigEndian).unwrap();
    assert_eq!(bytes, vec![1, 0]);
    let (rest, decoded) = Alert::deserialize(Buffer::new(&bytes, 2)).unwrap();
    assert_eq!(decoded, alert);
    assert_eq!(rest.length(), 0);
    assert_eq!(
        Alert::deserialize(Buffer::new(&[3, 0], 2)).err(),
        Some(Error::InvalidValue { kind: Kind::AlertLevel, code: 3 })
    );
    assert_eq!(
        Alert::deserialize(Buffer::new(&[1, 2], 2)).err(),
        Some(Error::InvalidValue { kind: Kind::AlertDescription, code: 2 })
    );
    assert_eq!(Alert::deserialize(Buffer::new(&[1], 1)).err(), Some(Error::UnexpectedEof));
}

#[test]
fn certificate_keeps_the_der_bytes() {
    let der: Vec<u8> = (0..=255u8).cycle().take(700).collect();
    let mut bytes = vec![0x00, 0x02, 0xBF, 0x00, 0x02, 0xBC];
    bytes.extend_from_slice(&der);
    let (rest, certificate) = Certificate::deserialize(Buffer::new(&bytes, bytes.len())).unwrap();
    assert_eq!(certificate.length.to_usize(), 703);
    assert_eq!(certificate.certificate_list.length.to_usize(), 700);
    assert_eq!(certificate.certificate_list.data, der);
    assert_eq!(rest.length(), 0);
    assert_eq!(to_bytes(&certificate, ByteOrder::BigEndian).unwrap(), bytes);
}

#[test]
fn vector_new_computes_the_length_in_bytes() {
    let suites = CipherSuites::new(vec![
        CipherSuite::TLS_RSA_WITH_AES_128_GCM_SHA256,
        CipherSuite::TLS_AES_128_GCM_SHA256,
    ])
    .unwrap();
    assert_eq!(suites.length, 4);
    assert_eq!(suites.data.len(), 2);
    let blob = Opaque::<u24>::new(vec![1, 2, 3]).unwrap();
    assert_eq!(blob.length.to_usize(), 3);
    let empty = Opaque::<u8>::new(vec![]).unwrap();
    assert_eq!(empty.length, 0);
    let inner = Vector::new(vec![SignatureAndHashAlgorithm {
        hash: HashAlgorithm::SHA256,
        signature: SignatureAlgorithm::RSA,
    }])
    .unwrap();
    let data: Vector<u16, ExtensionData> =
        Vector::new(vec![ExtensionData::SignatureAlgorithms(inner)]).unwrap();
    let extension = Extension { extension_type: ExtensionType::SignatureAlgorithms, data };
    assert_eq!(Extensions::new(vec![extension]).unwrap(), signature_algorithms());
}

#[test]
fn vector_new_refuses_elements_too_long_for_the_length_field() {
    assert_eq!(Opaque::<u8>::new(vec![0; 255]).unwrap().length, 255);
    assert_eq!(Opaque::<u8>::new(vec![0; 256]).err(), Some(Error::LengthMismatch));
    assert_eq!(Opaque::<u16>::new(vec![0; 0x1_0000]).err(), Some(Error::LengthMismatch));
    assert_eq!(
        CompressionMethods::new(vec![CompressionMethod::Null; 300]).err(),
        Some(Error::LengthMismatch)
    );
}

#[test]
fn u24_checked_from_refuses_numbers_of_25_bits() {
    assert_eq!(u24::checked_from(0xFF_FFFF).map(|v| v.to_usize()), Some(0xFF_FFFF));
    assert_eq!(u24::checked_from(0), Some(u24::from(0u16)));
    assert_eq!(u24::checked_from(0x100_0000), None);
}
