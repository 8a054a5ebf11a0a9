//! Server-side SSH transport and connection protocol (RFC 4250-4254):
//! wire codec, algorithm negotiation, Curve25519-SHA256 key exchange,
//! sequence-numbered HMAC transport, and channel multiplexing.

pub mod algorithm;
pub mod auth;
pub mod channel;
pub mod codec;
pub mod connection;
pub mod error;
pub mod kex;
pub mod mac;
pub mod message;
pub mod packet;
pub mod primitives;
pub mod protocol;
pub mod public_key;
pub mod server;

pub use error::ConnectionError;
pub use server::{Server, ServerConfig};
