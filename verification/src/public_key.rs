//! The host key: an Ed25519 key pair with its SSH wire encodings
//! (RFC 8709).

use vstd::prelude::*;
use vstd::string::StringSliceAdditionalSpecFns;

use crate::codec;
use crate::codec::{dec_string, enc_string};
use crate::error::ConnectionError;
use crate::primitives;
use crate::primitives::{ed25519_public_of, ed25519_sign_of, ed25519_verify_of};

verus! {

/// An Ed25519 key pair: the 32-byte public key, and, when the private half
/// is present, the 64-byte expanded secret key.
pub struct Ed25519KeyPair {
    public: Vec<u8>,
    private: Option<Vec<u8>>,
}

/// The wire form of the public key:
/// `string("ssh-ed25519") || string(public_32)`.
pub open spec fn spec_public_blob(public: Seq<u8>) -> Seq<u8> {
    enc_string("ssh-ed25519".spec_bytes()) + enc_string(public)
}

/// The wire form of a signature:
/// `string("ssh-ed25519") || string(signature_64)`.
pub open spec fn spec_signature_blob(sig: Seq<u8>) -> Seq<u8> {
    enc_string("ssh-ed25519".spec_bytes()) + enc_string(sig)
}

/// The export form of a key pair with its private half:
/// `string("ssh-ed25519") || string(public_32) || string(private_64)`.
pub open spec fn spec_export(public: Seq<u8>, private: Seq<u8>) -> Seq<u8> {
    enc_string("ssh-ed25519".spec_bytes()) + enc_string(public) + enc_string(private)
}

/// The key material an exported key pair's bytes denote: the algorithm
/// name followed by the 32-byte public key and the 64-byte private half,
/// each length-prefixed; anything else denotes nothing.
pub open spec fn spec_import(data: Seq<u8>) -> Option<(Seq<u8>, Seq<u8>)> {
    match dec_string(data, 0) {
        Some((name, p1)) => if name == "ssh-ed25519".spec_bytes() {
            match dec_string(data, p1) {
                Some((public, p2)) => if public.len() == 32 {
                    match dec_string(data, p2) {
                        Some((private, _)) => if private.len() == 64 {
                            Some((public, private))
                        } else {
                            None
                        },
                        None => None,
                    }
                } else {
                    None
                },
                None => None,
            }
        } else {
            None
        },
        None => None,
    }
}

/// The public key a wire blob's bytes at `pos` denote: 32 length-prefixed
/// bytes; anything else denotes nothing.
pub open spec fn spec_read_public(data: Seq<u8>, pos: int) -> Option<Seq<u8>> {
    match dec_string(data, pos) {
        Some((public, _)) => if public.len() == 32 {
            Some(public)
        } else {
            None
        },
        None => None,
    }
}

/// Export then import round-trips: the export form of any well-formed key
/// material denotes exactly that material again.
#[verifier::rlimit(100)]
pub proof fn lemma_export_import(public: Seq<u8>, private: Seq<u8>)
    requires
        public.len() == 32,
        private.len() == 64,
    ensures
        spec_import(spec_export(public, private)) == Some((public, private)),
{
    let name = "ssh-ed25519".spec_bytes();
    lemma_blob_lens();
    crate::codec::lemma_three_strings(name, public, private);
    let data = spec_export(public, private);
    assert(dec_string(data, 0) == Some((name, 15int)));
    assert(dec_string(data, 15) == Some((public, 51int)));
    assert(dec_string(data, 51) == Some((private, 119int)));
}

/// The algorithm name is eleven ASCII bytes, so the public-key blob of a
/// 32-byte key is 51 bytes and the signature blob of a 64-byte signature
/// is 83.
pub proof fn lemma_blob_lens()
    ensures
        "ssh-ed25519".spec_bytes().len() == 11,
        forall|p: Seq<u8>| p.len() == 32 ==> #[trigger] spec_public_blob(p).len() == 51,
        forall|s: Seq<u8>| s.len() == 64 ==> #[trigger] spec_signature_blob(s).len() == 83,
{
    reveal_strlit("ssh-ed25519");
    assert(vstd::utf8::is_ascii_chars("ssh-ed25519"@));
    vstd::utf8::is_ascii_chars_encode_utf8("ssh-ed25519"@);
}

impl Ed25519KeyPair {
    /// Well-formed: the public key is 32 bytes; a private half is 64.
    pub closed spec fn wf(self) -> bool {
        &&& self.public@.len() == 32
        &&& match self.private {
            Some(k) => k@.len() == 64,
            None => true,
        }
    }

    /// The public key bytes.
    pub closed spec fn spec_public(self) -> Seq<u8> {
        self.public@
    }

    /// The private half, if present.
    pub closed spec fn spec_private(self) -> Option<Seq<u8>> {
        match self.private {
            Some(k) => Some(k@),
            None => None,
        }
    }

    /// A well-formed key pair has a 32-byte public key, and a 64-byte
    /// private half when one is present.
    pub proof fn lemma_wf_lens(self)
        requires
            self.wf(),
        ensures
            self.spec_public().len() == 32,
            self.spec_private() matches Some(k) ==> k.len() == 64,
    {
    }

    /// A key pair derived from a 32-byte seed.
    pub fn from_seed(seed: &[u8]) -> (r: Ed25519KeyPair)
        requires
            seed@.len() == 32,
        ensures
            r.wf(),
            r.spec_public() == ed25519_public_of(seed@),
            r.spec_private() == Some(seed@ + ed25519_public_of(seed@)),
    {
        let (private, public) = primitives::ed25519_keypair(seed);
        Ed25519KeyPair { public, private: Some(private) }
    }

    /// A fresh key pair from the system random source.
    pub fn generate() -> (r: Ed25519KeyPair)
        ensures
            r.wf(),
            r.spec_private() is Some,
    {
        let seed = primitives::random_bytes(32);
        Ed25519KeyPair::from_seed(seed.as_slice())
    }

    /// A public-only key pair from 32 raw public key bytes.
    pub fn from_public(public: Vec<u8>) -> (r: Ed25519KeyPair)
        requires
            public@.len() == 32,
        ensures
            r.wf(),
            r.spec_public() == public@,
            r.spec_private() is None,
    {
        Ed25519KeyPair { public, private: None }
    }

    /// Whether the private half is present.
    pub fn has_private(&self) -> (r: bool)
        ensures
            r == (self.spec_private() is Some),
    {
        match &self.private {
            Some(_) => true,
            None => false,
        }
    }

    /// The raw 64-byte signature over `data`, or an error without the
    /// private half.
    pub fn sign(&self, data: &[u8]) -> (r: Result<Vec<u8>, ConnectionError>)
        requires
            self.wf(),
        ensures
            match r {
                Ok(sig) => self.spec_private() matches Some(k) && sig@ == ed25519_sign_of(
                    data@,
                    k,
                ) && sig@.len() == 64,
                Err(e) => self.spec_private() is None && e
                    == ConnectionError::KeyExchangeError,
            },
    {
        match &self.private {
            Some(k) => Ok(primitives::ed25519_sign(data, k.as_slice())),
            None => Err(ConnectionError::KeyExchangeError),
        }
    }

    /// Whether `signature` (64 raw bytes) verifies over `data` under this
    /// public key.
    pub fn verify(&self, data: &[u8], signature: &[u8]) -> (r: bool)
        requires
            self.wf(),
            signature@.len() == 64,
        ensures
            r == ed25519_verify_of(data@, self.spec_public(), signature@),
    {
        primitives::ed25519_verify(data, self.public.as_slice(), signature)
    }

    /// The wire form of the public key.
    pub fn write_public(&self) -> (r: Vec<u8>)
        requires
            self.wf(),
        ensures
            r@ == spec_public_blob(self.spec_public()),
    {
        let mut out: Vec<u8> = Vec::new();
        codec::write_string(&mut out, "ssh-ed25519");
        codec::write_bytes(&mut out, self.public.as_slice());
        out
    }

    /// The wire form of a raw 64-byte signature.
    pub fn signature_blob(signature: &[u8]) -> (r: Vec<u8>)
        requires
            signature@.len() == 64,
        ensures
            r@ == spec_signature_blob(signature@),
    {
        let mut out: Vec<u8> = Vec::new();
        codec::write_string(&mut out, "ssh-ed25519");
        codec::write_bytes(&mut out, signature);
        out
    }

    /// The export form of the key pair; the private half is appended when
    /// present.
    pub fn export(&self) -> (r: Vec<u8>)
        requires
            self.wf(),
        ensures
            match self.spec_private() {
                Some(k) => r@ == spec_export(self.spec_public(), k),
                None => r@ == spec_public_blob(self.spec_public()),
            },
    {
        let mut out: Vec<u8> = Vec::new();
        codec::write_string(&mut out, "ssh-ed25519");
        codec::write_bytes(&mut out, self.public.as_slice());
        match &self.private {
            Some(k) => {
                codec::write_bytes(&mut out, k.as_slice());
            },
            None => {},
        }
        out
    }

    /// Parse an exported key pair: the algorithm name, the 32-byte public
    /// key and the 64-byte private half, each length-prefixed. Parsing
    /// fails exactly on bytes that do not denote such material.
    pub fn import(data: &[u8]) -> (r: Result<Ed25519KeyPair, ConnectionError>)
        ensures
            match r {
                Ok(kp) => {
                    &&& kp.wf()
                    &&& spec_import(data@) matches Some((public, private)) && kp.spec_public()
                        == public && kp.spec_private() == Some(private)
                },
                Err(e) => {
                    &&& e == ConnectionError::KeyGenerationError
                    &&& spec_import(data@) is None
                },
            },
    {
        let (name, p1) = match codec::read_string(data, 0) {
            Some(v) => v,
            None => { return Err(ConnectionError::KeyGenerationError) },
        };
        if !codec::eq_bytes(name.as_slice(), "ssh-ed25519".as_bytes()) {
            return Err(ConnectionError::KeyGenerationError);
        }
        let (public, p2) = match codec::read_string(data, p1) {
            Some(v) => v,
            None => { return Err(ConnectionError::KeyGenerationError) },
        };
        if public.len() != 32 {
            return Err(ConnectionError::KeyGenerationError);
        }
        let (private, _) = match codec::read_string(data, p2) {
            Some(v) => v,
            None => { return Err(ConnectionError::KeyGenerationError) },
        };
        if private.len() != 64 {
            return Err(ConnectionError::KeyGenerationError);
        }
        Ok(Ed25519KeyPair { public, private: Some(private) })
    }

    /// Parse the public-key part of a wire blob at `pos`: the 32-byte
    /// public key, length-prefixed. Parsing fails exactly on bytes that do
    /// not denote one.
    pub fn read_public(data: &[u8], pos: usize) -> (r: Result<Ed25519KeyPair, ConnectionError>)
        ensures
            match r {
                Ok(kp) => {
                    &&& kp.wf()
                    &&& kp.spec_private() is None
                    &&& spec_read_public(data@, pos as int) == Some(kp.spec_public())
                },
                Err(e) => {
                    &&& e == ConnectionError::KeyGenerationError
                    &&& spec_read_public(data@, pos as int) is None
                },
            },
    {
        let (public, _) = match codec::read_string(data, pos) {
            Some(v) => v,
            None => { return Err(ConnectionError::KeyGenerationError) },
        };
        if public.len() != 32 {
            return Err(ConnectionError::KeyGenerationError);
        }
        Ok(Ed25519KeyPair { public, private: None })
    }
}

} // verus!
