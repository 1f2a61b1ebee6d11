//! The errors of encoding and decoding.

use vstd::prelude::*;

verus! {

/// The closed enumerations whose codes appear on the wire.
#[derive(Clone, Copy, Debug, PartialEq, Eq, Structural)]
pub enum Kind {
    ContentType,
    ProtocolVersion,
    HandshakeType,
    CipherSuite,
    CompressionMethod,
    ExtensionType,
    HashAlgorithm,
    SignatureAlgorithm,
    AlertLevel,
    AlertDescription,
    ChangeCipherSpec,
}

/// Why a value could not be decoded or encoded.
#[derive(Clone, Copy, Debug, PartialEq, Eq, Structural)]
pub enum Error {
    /// A read needed more bytes than the declared length provides.
    UnexpectedEof,
    /// A wire code matches no variant of the enumeration `kind`.
    InvalidValue { kind: Kind, code: u16 },
    /// A legal value of the enumeration `kind` selects something that this
    /// library does not decode.
    Unimplemented { kind: Kind },
    /// A length does not agree with the size of the payload it describes.
    LengthMismatch,
}

} // verus!
