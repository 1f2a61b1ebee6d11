//! Wire encoding and decoding of TLS 1.2 handshake messages.
//!
//! * [`ser`] turns values into bytes: a serializer that is told the byte order
//!   and writes each value field by field, and a sizing pass that only counts.
//! * [`tls`] holds the vocabulary of the protocol (records, handshake messages,
//!   length-prefixed vectors, a 24-bit integer, the closed enumerations of wire
//!   codes) and the decoders, which read from a cursor that never goes past
//!   the length declared for it.
//! * [`endian`] says what the bytes of an integer are in either byte order.
//! * [`error`] holds the errors that decoding and encoding report.
//!
//! Every decoder is specified by a function from bytes to a value or an error,
//! every encoder by a function from a value to bytes, and the two are proved to
//! undo each other.

pub mod endian;
pub mod error;
pub mod ser;
pub mod tls;
