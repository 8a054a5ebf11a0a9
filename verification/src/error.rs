//! Error kinds for a connection, fatal unless noted otherwise.

use vstd::prelude::*;

verus! {

/// The ways a connection can fail. All of these are fatal to the connection
/// except where a handler contains them (unknown channel requests and unknown
/// authentication methods are answered, not fatal).
#[derive(Clone, Copy, PartialEq, Eq, Structural, Debug)]
pub enum ConnectionError {
    /// The underlying transport failed; raised by the I/O layer around the
    /// library, never by the library itself.
    IoError,
    /// An unexpected message type or field was received.
    ProtocolError,
    /// No common algorithm between both sides.
    NegotiationError,
    /// Invalid curve point, signature, or out-of-order key-exchange message.
    KeyExchangeError,
    /// Material for key derivation was missing.
    KeyGenerationError,
    /// A MAC mismatch or a length bound violation.
    IntegrityError,
}

impl ConnectionError {
    /// A short description of the error kind.
    pub fn message(&self) -> (r: &'static str)
        ensures
            r@ == self.spec_message(),
    {
        match self {
            ConnectionError::IoError => "io error",
            ConnectionError::ProtocolError => "protocol error",
            ConnectionError::NegotiationError => "negotiation error",
            ConnectionError::KeyExchangeError => "key exchange error",
            ConnectionError::KeyGenerationError => "key generation error",
            ConnectionError::IntegrityError => "integrity error",
        }
    }

    pub open spec fn spec_message(self) -> Seq<char> {
        match self {
            ConnectionError::IoError => "io error"@,
            ConnectionError::ProtocolError => "protocol error"@,
            ConnectionError::NegotiationError => "negotiation error"@,
            ConnectionError::KeyExchangeError => "key exchange error"@,
            ConnectionError::KeyGenerationError => "key generation error"@,
            ConnectionError::IntegrityError => "integrity error"@,
        }
    }
}

/// The result type used throughout the connection layer.
pub type ConnectionResult<T> = Result<T, ConnectionError>;

} // verus!
