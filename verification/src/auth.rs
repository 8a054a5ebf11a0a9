//! User-authentication data: the methods a client may name and a parsed
//! authentication request.

use vstd::prelude::*;

verus! {

/// An authentication method named in a USERAUTH_REQUEST.
#[derive(Clone, Copy, PartialEq, Eq, Structural, Debug)]
pub enum AuthMethod {
    PublicKey,
    Password,
    HostBased,
    NoAuth,
}

/// A parsed USERAUTH_REQUEST header: who asks for which service, and how.
pub struct AuthRequest {
    /// The user name.
    pub user: Vec<u8>,
    /// The service the client wants after authentication.
    pub service: Vec<u8>,
    /// The authentication method.
    pub method: AuthMethod,
}

} // verus!
