//! Sequence-numbered packet authentication: HMAC-SHA-256 over
//! `seq:u32-be || unencrypted_packet`, as RFC 4253 section 6.4 lays down.

use vstd::prelude::*;

use crate::codec;
use crate::codec::be32;
use crate::primitives;
use crate::primitives::hmac_sha256_of;

verus! {

/// The tag over a packet: HMAC-SHA-256 of the big-endian sequence number
/// followed by the cleartext framed packet.
pub open spec fn spec_mac(key: Seq<u8>, data: Seq<u8>, seqn: u32) -> Seq<u8> {
    hmac_sha256_of(key, be32(seqn) + data)
}

/// One direction's MAC state: the integrity key of that direction.
pub struct Hmac {
    key: Vec<u8>,
}

impl View for Hmac {
    type V = Seq<u8>;

    closed spec fn view(&self) -> Seq<u8> {
        self.key@
    }
}

impl Hmac {
    /// A MAC instance over the given integrity key.
    pub fn new(key: Vec<u8>) -> (r: Hmac)
        ensures
            r@ == key@,
    {
        Hmac { key }
    }

    /// The tag size in bytes.
    pub fn size(&self) -> (r: usize)
        ensures
            r == 32,
    {
        32
    }

    /// The tag over `data` as packet number `seqn`.
    pub fn sign(&self, data: &[u8], seqn: u32) -> (r: Vec<u8>)
        ensures
            r@ == spec_mac(self@, data@, seqn),
            r@.len() == 32,
    {
        let mut msg: Vec<u8> = Vec::new();
        codec::write_uint32(&mut msg, seqn);
        codec::write_raw_bytes(&mut msg, data);
        primitives::hmac_sha256(self.key.as_slice(), msg.as_slice())
    }

    /// Whether `sig` is the tag over `data` as packet number `seqn`: the
    /// tag just signed verifies, and a differing tag never does. The tags
    /// are compared in constant time.
    pub fn verify(&self, data: &[u8], seqn: u32, sig: &[u8]) -> (r: bool)
        ensures
            r == (sig@ == spec_mac(self@, data@, seqn)),
    {
        let expected = self.sign(data, seqn);
        constant_time_eq(sig, expected.as_slice())
    }
}

/// Compare two byte strings without an early exit on the first differing
/// byte; only their (public) lengths shape the control flow.
fn constant_time_eq(a: &[u8], b: &[u8]) -> (r: bool)
    ensures
        r == (a@ == b@),
{
    if a.len() != b.len() {
        return false;
    }
    let mut diff: u8 = 0;
    let mut i: usize = 0;
    while i < a.len()
        invariant
            i <= a@.len(),
            a@.len() == b@.len(),
            (diff == 0) <==> (forall|j: int| 0 <= j < i ==> a@[j] == b@[j]),
        decreases a.len() - i,
    {
        let x = a[i];
        let y = b[i];
        let ghost d0 = diff;
        diff = diff | (x ^ y);
        proof {
            assert(((d0 | (x ^ y)) == 0) == (d0 == 0 && x == y)) by (bit_vector);
        }
        i = i + 1;
    }
    proof {
        if diff == 0 {
            assert(a@ =~= b@);
        }
    }
    diff == 0
}

} // verus!
