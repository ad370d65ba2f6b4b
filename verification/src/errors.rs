//! The error types that interacting with an `nsqd` instance can produce.

use vstd::prelude::*;

verus! {

/// Declares `std::io::Error` so that it can be carried inside [`NsqError`].
/// Nothing is assumed about its values; it is an opaque payload.
#[verifier::external_type_specification]
#[verifier::external_body]
pub struct ExIoError(std::io::Error);

/// `NsqError` is a variant of errors that can happen when interacting with an
/// `nsqd` instance.
#[derive(Debug)]
pub enum NsqError {
    /// `Io` wraps an `std::io::Error` from the underlying socket.
    Io(std::io::Error),
    /// `InvalidConn` is used when there is no connection to an `nsqd` instance.
    InvalidConn,
    /// `Framing` reports a stream that ends in the middle of a frame, or a
    /// length prefix beyond the configured maximum frame size.
    Framing,
    /// `ProtocolParse` reports a message frame shorter than the fixed message
    /// header, which is a protocol violation.
    ProtocolParse,
}

/// `NsqResult` wraps an `NsqError` with another type T.
pub type NsqResult<T> = Result<T, NsqError>;

} // verus!
