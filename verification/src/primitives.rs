//! Trusted bindings to the cryptographic primitives: SHA-256, HMAC-SHA-256,
//! Curve25519 scalar multiplication, Ed25519 signatures, AES-256-CTR, and
//! the system random source.
//!
//! Each binding is a thin wrapper around one function of an outside crate;
//! its contract names the result where the result is a function of the
//! arguments alone, and states only what holds of every outcome where it
//! is not.

use vstd::prelude::*;

verus! {

/// The SHA-256 digest of a byte sequence.
pub uninterp spec fn sha256_of(data: Seq<u8>) -> Seq<u8>;

/// The HMAC-SHA-256 tag over `data` under `key`.
pub uninterp spec fn hmac_sha256_of(key: Seq<u8>, data: Seq<u8>) -> Seq<u8>;

/// The Curve25519 scalar multiplication of (clamped) `scalar` and `point`.
pub uninterp spec fn curve25519_of(scalar: Seq<u8>, point: Seq<u8>) -> Seq<u8>;

/// The Curve25519 scalar multiplication of (clamped) `scalar` and the base
/// point.
pub uninterp spec fn curve25519_base_of(scalar: Seq<u8>) -> Seq<u8>;

/// The Ed25519 public key derived from a 32-byte seed.
pub uninterp spec fn ed25519_public_of(seed: Seq<u8>) -> Seq<u8>;

/// The Ed25519 signature over `message` under a 64-byte expanded secret key.
pub uninterp spec fn ed25519_sign_of(message: Seq<u8>, secret: Seq<u8>) -> Seq<u8>;

/// Whether `signature` verifies over `message` under `public`.
pub uninterp spec fn ed25519_verify_of(message: Seq<u8>, public: Seq<u8>, signature: Seq<u8>) -> bool;

/// Relies on crypto::sha2::Sha256 (Digest): the 32-byte SHA-256 digest of
/// the input, a function of the input alone.
#[verifier::external_body]
pub(crate) fn sha256(data: &[u8]) -> (r: Vec<u8>)
    ensures
        r@ == sha256_of(data@),
        r@.len() == 32,
{
    let mut hasher = ::crypto::sha2::Sha256::new();
    let mut out = [0u8; 32];
    ::crypto::digest::Digest::input(&mut hasher, data);
    ::crypto::digest::Digest::result(&mut hasher, &mut out);
    out.to_vec()
}

/// Relies on crypto::hmac::Hmac over crypto::sha2::Sha256: the 32-byte
/// HMAC-SHA-256 tag, a function of key and data alone; keys of any length
/// are padded or hashed to the block size.
#[verifier::external_body]
pub(crate) fn hmac_sha256(key: &[u8], data: &[u8]) -> (r: Vec<u8>)
    ensures
        r@ == hmac_sha256_of(key@, data@),
        r@.len() == 32,
{
    let mut mac = ::crypto::hmac::Hmac::new(::crypto::sha2::Sha256::new(), key);
    let mut out = [0u8; 32];
    ::crypto::mac::Mac::input(&mut mac, data);
    ::crypto::mac::Mac::raw_result(&mut mac, &mut out);
    out.to_vec()
}

/// Relies on crypto::curve25519::curve25519: the 32-byte product of a
/// scalar (clamped internally) and a point, a function of both alone; the
/// implementation indexes 32 bytes of the point.
#[verifier::external_body]
pub(crate) fn curve25519(scalar: &[u8], point: &[u8]) -> (r: Vec<u8>)
    requires
        scalar@.len() == 32,
        point@.len() == 32,
    ensures
        r@ == curve25519_of(scalar@, point@),
        r@.len() == 32,
{
    ::crypto::curve25519::curve25519(scalar, point).to_vec()
}

/// Relies on crypto::curve25519::curve25519_base: the 32-byte product of a
/// scalar (clamped internally) and the base point, a function of the scalar
/// alone.
#[verifier::external_body]
pub(crate) fn curve25519_base(scalar: &[u8]) -> (r: Vec<u8>)
    requires
        scalar@.len() == 32,
    ensures
        r@ == curve25519_base_of(scalar@),
        r@.len() == 32,
{
    ::crypto::curve25519::curve25519_base(scalar).to_vec()
}

/// Relies on crypto::ed25519::keypair: from a 32-byte seed, the 64-byte
/// expanded secret key, which its source lays out as the seed followed by
/// the public key, and the 32-byte public key; both functions of the seed
/// alone.
#[verifier::external_body]
pub(crate) fn ed25519_keypair(seed: &[u8]) -> (r: (Vec<u8>, Vec<u8>))
    requires
        seed@.len() == 32,
    ensures
        r.1@ == ed25519_public_of(seed@),
        r.1@.len() == 32,
        r.0@ == seed@ + ed25519_public_of(seed@),
        r.0@.len() == 64,
{
    let (secret, public) = ::crypto::ed25519::keypair(seed);
    (secret.to_vec(), public.to_vec())
}

/// Relies on crypto::ed25519::signature: the 64-byte signature over a
/// message under a 64-byte expanded secret key, a function of both alone;
/// the implementation indexes 64 bytes of the key.
#[verifier::external_body]
pub(crate) fn ed25519_sign(message: &[u8], secret: &[u8]) -> (r: Vec<u8>)
    requires
        secret@.len() == 64,
    ensures
        r@ == ed25519_sign_of(message@, secret@),
        r@.len() == 64,
{
    ::crypto::ed25519::signature(message, secret).to_vec()
}

/// Relies on crypto::ed25519::verify: whether the signature verifies, a
/// function of message, public key and signature alone; the implementation
/// indexes 32 bytes of the key and 64 of the signature.
#[verifier::external_body]
pub(crate) fn ed25519_verify(message: &[u8], public: &[u8], signature: &[u8]) -> (r: bool)
    requires
        public@.len() == 32,
        signature@.len() == 64,
    ensures
        r == ed25519_verify_of(message@, public@, signature@),
{
    ::crypto::ed25519::verify(message, public, signature)
}

/// Relies on rand::thread_rng (RngCore::fill_bytes): `n` bytes from a
/// cryptographically secure random source; nothing is promised of their
/// values.
#[verifier::external_body]
pub(crate) fn random_bytes(n: usize) -> (r: Vec<u8>)
    ensures
        r@.len() == n,
{
    let mut v = vec![0u8; n];
    rand::RngCore::fill_bytes(&mut rand::thread_rng(), &mut v);
    v
}

/// One byte of the AES-256-CTR keystream under a key and IV, at a position
/// in the stream.
pub uninterp spec fn aes256_keystream(key: Seq<u8>, iv: Seq<u8>, i: int) -> u8;

/// Bytes XORed with the keystream from a position on: what AES-256-CTR
/// makes of them, encrypting and decrypting alike.
pub open spec fn ctr_xor(key: Seq<u8>, iv: Seq<u8>, offset: int, data: Seq<u8>) -> Seq<u8> {
    Seq::new(data.len(), |i: int| data[i] ^ aes256_keystream(key, iv, offset + i))
}

/// Applying the keystream twice gives the bytes back: CTR decryption at a
/// key, IV and position inverts CTR encryption at the same three.
pub proof fn lemma_ctr_xor_involution(key: Seq<u8>, iv: Seq<u8>, offset: int, data: Seq<u8>)
    ensures
        ctr_xor(key, iv, offset, ctr_xor(key, iv, offset, data)) == data,
{
    let twice = ctr_xor(key, iv, offset, ctr_xor(key, iv, offset, data));
    assert forall|i: int| 0 <= i < data.len() implies twice[i] == data[i] by {
        let x = data[i];
        let k = aes256_keystream(key, iv, offset + i);
        assert((x ^ k) ^ k == x) by (bit_vector);
    }
    assert(twice =~= data);
}

/// The cipher object of the outside crate: a boxed trait object, which
/// cannot be declared to the verifier, held opaque.
#[verifier::external_body]
struct CtrCipher {
    cipher: Box<dyn (::crypto::symmetriccipher::SynchronousStreamCipher) + 'static>,
}

/// Relies on crypto::aes::ctr with a 256-bit key: a fresh cipher object
/// over the given key and IV; what it produces is stated at `process`.
#[verifier::external_body]
fn ctr_cipher_new(key: &[u8], iv: &[u8]) -> CtrCipher
    requires
        key@.len() == 32,
        iv@.len() == 16,
{
    CtrCipher { cipher: ::crypto::aes::ctr(::crypto::aes::KeySize::KeySize256, key, iv) }
}

/// An AES-256-CTR stream instance, together with the key, IV and stream
/// position it stands at; the constructor couples the three to the cipher
/// object, and the trusted `process` keeps them in step.
pub struct AesCtr {
    inner: CtrCipher,
    key: Ghost<Seq<u8>>,
    iv: Ghost<Seq<u8>>,
    offset: Ghost<int>,
}

impl AesCtr {
    /// The key this instance was built with.
    pub closed spec fn spec_key(self) -> Seq<u8> {
        self.key@
    }

    /// The IV this instance was built with.
    pub closed spec fn spec_iv(self) -> Seq<u8> {
        self.iv@
    }

    /// The stream position: how many bytes this instance has processed.
    pub closed spec fn spec_offset(self) -> int {
        self.offset@
    }

    /// A fresh AES-256-CTR instance over the given key and initialisation
    /// vector, at stream position zero.
    pub fn new(key: &[u8], iv: &[u8]) -> (r: AesCtr)
        requires
            key@.len() == 32,
            iv@.len() == 16,
        ensures
            r.spec_key() == key@,
            r.spec_iv() == iv@,
            r.spec_offset() == 0,
    {
        let inner = ctr_cipher_new(key, iv);
        AesCtr { inner, key: Ghost(key@), iv: Ghost(iv@), offset: Ghost(0int) }
    }

    /// Relies on SynchronousStreamCipher::process (CtrMode, CtrModeX8):
    /// CTR mode XORs the input with the keystream at the instance's
    /// position, a function of key, IV and position alone; the position
    /// advances by the number of bytes processed.
    #[verifier::external_body]
    pub fn process(&mut self, data: &[u8]) -> (r: Vec<u8>)
        ensures
            r@.len() == data@.len(),
            forall|i: int|
                0 <= i < data@.len() ==> r@[i] == (data@[i] ^ aes256_keystream(
                    old(self).spec_key(),
                    old(self).spec_iv(),
                    old(self).spec_offset() + i,
                )),
            r@ == ctr_xor(
                old(self).spec_key(),
                old(self).spec_iv(),
                old(self).spec_offset(),
                data@,
            ),
            final(self).spec_key() == old(self).spec_key(),
            final(self).spec_iv() == old(self).spec_iv(),
            final(self).spec_offset() == old(self).spec_offset() + data@.len(),
    {
        let mut out = vec![0u8; data.len()];
        self.inner.cipher.process(data, &mut out);
        out
    }
}

} // verus!
