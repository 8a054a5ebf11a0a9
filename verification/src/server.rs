//! The server: an immutable configuration shared by every connection. The
//! TCP accept loop and per-connection threads live with the I/O layer.

use vstd::prelude::*;

use crate::public_key::Ed25519KeyPair;

verus! {

/// What a server is configured with: where to listen, its host key, and
/// the password its verifier accepts.
pub struct ServerConfig {
    /// The bind address.
    pub host: String,
    /// The TCP port.
    pub port: u16,
    /// The host key pair; must hold the private half.
    pub key: Ed25519KeyPair,
    /// The password the authentication gate accepts.
    pub password: Vec<u8>,
}

/// The server, holding its configuration.
pub struct Server {
    /// The configuration every connection reads.
    pub config: ServerConfig,
}

impl Server {
    /// A server over the given configuration.
    pub fn with_config(config: ServerConfig) -> (r: Server)
        ensures
            r.config == config,
    {
        Server { config }
    }
}

} // verus!
