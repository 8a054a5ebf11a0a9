//! The Curve25519-SHA256 key-exchange engine (RFC 8731): process the
//! client's ECDH_INIT, compute the shared secret and the exchange hash, and
//! reply with ECDH_REPLY.

use vstd::prelude::*;

use crate::codec;
use crate::codec::{dec_string, enc_mpint, enc_string, strip_zeros};
use crate::message::MessageType;
use crate::packet::Packet;
use crate::primitives;
use crate::primitives::{curve25519_base_of, curve25519_of, ed25519_sign_of, sha256_of};
use crate::public_key::{spec_public_blob, spec_signature_blob, Ed25519KeyPair};

verus! {

/// The message number of the client's ECDH initiation.
pub const ECDH_KEX_INIT: u8 = 30;

/// The message number of the server's ECDH reply.
pub const ECDH_KEX_REPLY: u8 = 31;

/// What one step of a key exchange produced: a reply with more steps to
/// come, the final reply, or a failure.
pub enum KexResult {
    Reply(Packet),
    Done(Packet),
    Failed,
}

/// The banners and KEXINIT payloads that feed the exchange hash, each
/// captured when it was sent or received.
pub struct HashData {
    /// The client's identification banner, without CR-LF.
    pub client_id: Option<Vec<u8>>,
    /// The server's identification banner, without CR-LF.
    pub server_id: Option<Vec<u8>>,
    /// The client's KEXINIT payload, with the leading message-type byte.
    pub client_kexinit: Option<Vec<u8>>,
    /// The server's KEXINIT payload, with the leading message-type byte.
    pub server_kexinit: Option<Vec<u8>>,
}

impl HashData {
    /// All four hash inputs captured.
    pub open spec fn complete(self) -> bool {
        &&& self.client_id is Some
        &&& self.server_id is Some
        &&& self.client_kexinit is Some
        &&& self.server_kexinit is Some
    }

    /// An empty capture.
    pub fn new() -> (r: HashData)
        ensures
            r.client_id is None,
            r.server_id is None,
            r.client_kexinit is None,
            r.server_kexinit is None,
    {
        HashData { client_id: None, server_id: None, client_kexinit: None, server_kexinit: None }
    }
}

/// A Curve25519 scalar with the standard clamp applied.
pub open spec fn spec_clamp(s: Seq<u8>) -> Seq<u8>
    recommends
        s.len() == 32,
{
    s.update(0, s[0] & 248).update(31, (s[31] & 127) | 64)
}

/// The `mpint(K)` bytes of the shared secret a clamped server scalar and
/// the client's ephemeral public key produce.
pub open spec fn spec_shared_mpint(clamped: Seq<u8>, client_public: Seq<u8>) -> Seq<u8> {
    enc_mpint(strip_zeros(curve25519_of(clamped, client_public)))
}

/// The concatenation the exchange hash is the SHA-256 of (RFC 4253 section
/// 8 with the curve of RFC 8731): the banners, the KEXINIT payloads, the
/// host key blob and both ephemeral public keys, each as a `string`,
/// followed by `mpint(K)`.
pub open spec fn spec_exchange_hash_input(
    client_id: Seq<u8>,
    server_id: Seq<u8>,
    client_kexinit: Seq<u8>,
    server_kexinit: Seq<u8>,
    host_key_blob: Seq<u8>,
    client_public: Seq<u8>,
    server_public: Seq<u8>,
    shared_mpint: Seq<u8>,
) -> Seq<u8> {
    enc_string(client_id) + enc_string(server_id) + enc_string(client_kexinit) + enc_string(
        server_kexinit,
    ) + enc_string(host_key_blob) + enc_string(client_public) + enc_string(server_public)
        + shared_mpint
}

/// The exchange hash over captured hash data, a host key and the two
/// ephemeral keys: fixed inputs give a fixed hash.
pub open spec fn spec_exchange_hash(
    hash_data: HashData,
    host_public: Seq<u8>,
    client_public: Seq<u8>,
    clamped: Seq<u8>,
) -> Seq<u8>
    recommends
        hash_data.complete(),
{
    sha256_of(
        spec_exchange_hash_input(
            hash_data.client_id.unwrap()@,
            hash_data.server_id.unwrap()@,
            hash_data.client_kexinit.unwrap()@,
            hash_data.server_kexinit.unwrap()@,
            spec_public_blob(host_public),
            client_public,
            curve25519_base_of(clamped),
            spec_shared_mpint(clamped, client_public),
        ),
    )
}

/// The payload of the server's ECDH_REPLY: the message number, then the
/// host key blob, the server's ephemeral public key and the signature blob
/// over the exchange hash, each as a `string`.
pub open spec fn spec_reply_payload(
    host_public: Seq<u8>,
    clamped: Seq<u8>,
    signature: Seq<u8>,
) -> Seq<u8> {
    seq![ECDH_KEX_REPLY] + enc_string(spec_public_blob(host_public)) + enc_string(
        curve25519_base_of(clamped),
    ) + enc_string(spec_signature_blob(signature))
}

/// The Curve25519 key-exchange state: its in-progress secrets, destroyed
/// at the end of the round.
pub struct Curve25519 {
    shared_secret: Option<Vec<u8>>,
    exchange_hash: Option<Vec<u8>>,
}

impl Curve25519 {
    /// The `mpint(K)` bytes once the exchange has run.
    pub closed spec fn spec_shared_secret(self) -> Option<Seq<u8>> {
        match self.shared_secret {
            Some(v) => Some(v@),
            None => None,
        }
    }

    /// The exchange hash once the exchange has run.
    pub closed spec fn spec_exchange_hash(self) -> Option<Seq<u8>> {
        match self.exchange_hash {
            Some(v) => Some(v@),
            None => None,
        }
    }

    /// A fresh exchange, before any message.
    pub fn new() -> (r: Curve25519)
        ensures
            r.spec_shared_secret() is None,
            r.spec_exchange_hash() is None,
    {
        Curve25519 { shared_secret: None, exchange_hash: None }
    }

    /// The `mpint(K)` bytes, once present.
    pub fn shared_secret(&self) -> (r: Option<&Vec<u8>>)
        ensures
            match r {
                Some(v) => self.spec_shared_secret() == Some(v@),
                None => self.spec_shared_secret() is None,
            },
    {
        self.shared_secret.as_ref()
    }

    /// The exchange hash, once present.
    pub fn exchange_hash(&self) -> (r: Option<&Vec<u8>>)
        ensures
            match r {
                Some(v) => self.spec_exchange_hash() == Some(v@),
                None => self.spec_exchange_hash() is None,
            },
    {
        self.exchange_hash.as_ref()
    }

    /// Process one key-exchange packet with a fresh random scalar.
    /// Whatever scalar was drawn, an ECDH_INIT carrying a 32-byte point
    /// yields `Done` with the reply determined by that scalar, and anything
    /// else fails.
    pub fn process(
        &mut self,
        hash_data: &HashData,
        host_key: &Ed25519KeyPair,
        packet: &Packet,
    ) -> (r: KexResult)
        requires
            hash_data.complete(),
            host_key.wf(),
            host_key.spec_private() is Some,
            packet.wf(),
        ensures
            match r {
                KexResult::Done(reply) => exists|secret: Seq<u8>|
                    secret.len() == 32 && #[trigger] kex_step_ok(
                        *old(self),
                        *final(self),
                        *hash_data,
                        *host_key,
                        *packet,
                        secret,
                        reply,
                    ),
                KexResult::Failed => !ecdh_init_accepted(*packet) && *final(self) == *old(self),
                KexResult::Reply(_) => false,
            },
    {
        let secret = primitives::random_bytes(32);
        let ghost s = secret@;
        let r = self.process_with_secret(hash_data, host_key, packet, secret);
        proof {
            match &r {
                KexResult::Done(reply) => {
                    assert(kex_step_ok(
                        *old(self),
                        *self,
                        *hash_data,
                        *host_key,
                        *packet,
                        s,
                        *reply,
                    ));
                },
                _ => {},
            }
        }
        r
    }

    /// Process one key-exchange packet with the given ephemeral scalar:
    /// the deterministic core of the exchange. An ECDH_INIT carrying a
    /// 32-byte point yields `Done` with the reply, the exchange hash and
    /// `mpint(K)` all functions of the inputs; anything else fails and
    /// leaves the state unchanged.
    #[verifier::rlimit(100)]
    pub fn process_with_secret(
        &mut self,
        hash_data: &HashData,
        host_key: &Ed25519KeyPair,
        packet: &Packet,
        secret: Vec<u8>,
    ) -> (r: KexResult)
        requires
            hash_data.complete(),
            host_key.wf(),
            host_key.spec_private() is Some,
            packet.wf(),
            secret@.len() == 32,
        ensures
            match r {
                KexResult::Done(reply) => kex_step_ok(
                    *old(self),
                    *final(self),
                    *hash_data,
                    *host_key,
                    *packet,
                    secret@,
                    reply,
                ),
                KexResult::Failed => !ecdh_init_accepted(*packet) && *final(self) == *old(self),
                KexResult::Reply(_) => false,
            },
    {
        let payload = packet.payload_of();
        if payload.len() == 0 || payload[0] != ECDH_KEX_INIT {
            return KexResult::Failed;
        }
        let client_public = match codec::read_string(payload.as_slice(), 1) {
            Some((v, _)) => v,
            None => { return KexResult::Failed },
        };
        if client_public.len() != 32 {
            return KexResult::Failed;
        }

        // Clamp the ephemeral scalar.
        let ghost s0 = secret@;
        let mut clamped = secret;
        let b0 = clamped[0];
        clamped[0] = b0 & 248;
        let b31 = clamped[31];
        clamped[31] = (b31 & 127) | 64;
        proof {
            assert(clamped@ =~= spec_clamp(s0));
        }

        let server_public = primitives::curve25519_base(clamped.as_slice());
        let shared_point = primitives::curve25519(clamped.as_slice(), client_public.as_slice());
        let mut shared_mpint: Vec<u8> = Vec::new();
        codec::write_mpint(&mut shared_mpint, shared_point.as_slice());

        let host_blob = host_key.write_public();
        let hash_input = build_hash_input(
            hash_data,
            &host_blob,
            &client_public,
            &server_public,
            &shared_mpint,
        );

        let hash = primitives::sha256(hash_input.as_slice());
        let signature = match host_key.sign(hash.as_slice()) {
            Ok(sig) => sig,
            Err(_) => { return KexResult::Failed },
        };
        let signature_blob = Ed25519KeyPair::signature_blob(signature.as_slice());

        proof {
            crate::public_key::lemma_blob_lens();
            host_key.lemma_wf_lens();
        }
        let reply = build_reply(&host_blob, &server_public, &signature_blob);

        proof {
            assert(reply.spec_payload() =~= spec_reply_payload(
                host_key.spec_public(),
                clamped@,
                ed25519_sign_of(hash@, host_key.spec_private().unwrap()),
            ));
        }
        self.exchange_hash = Some(hash);
        self.shared_secret = Some(shared_mpint);

        KexResult::Done(reply)
    }
}

/// The concatenation the exchange hash is computed over, assembled from
/// the captured hash data and the keys of this round.
fn build_hash_input(
    hash_data: &HashData,
    host_blob: &Vec<u8>,
    client_public: &Vec<u8>,
    server_public: &Vec<u8>,
    shared_mpint: &Vec<u8>,
) -> (r: Vec<u8>)
    requires
        hash_data.complete(),
    ensures
        r@ == spec_exchange_hash_input(
            hash_data.client_id.unwrap()@,
            hash_data.server_id.unwrap()@,
            hash_data.client_kexinit.unwrap()@,
            hash_data.server_kexinit.unwrap()@,
            host_blob@,
            client_public@,
            server_public@,
            shared_mpint@,
        ),
{
    let mut out: Vec<u8> = Vec::new();
    codec::write_bytes(&mut out, hash_data.client_id.as_ref().unwrap().as_slice());
    codec::write_bytes(&mut out, hash_data.server_id.as_ref().unwrap().as_slice());
    codec::write_bytes(&mut out, hash_data.client_kexinit.as_ref().unwrap().as_slice());
    codec::write_bytes(&mut out, hash_data.server_kexinit.as_ref().unwrap().as_slice());
    codec::write_bytes(&mut out, host_blob.as_slice());
    codec::write_bytes(&mut out, client_public.as_slice());
    codec::write_bytes(&mut out, server_public.as_slice());
    codec::write_raw_bytes(&mut out, shared_mpint.as_slice());
    proof {
        assert(out@ =~= spec_exchange_hash_input(
            hash_data.client_id.unwrap()@,
            hash_data.server_id.unwrap()@,
            hash_data.client_kexinit.unwrap()@,
            hash_data.server_kexinit.unwrap()@,
            host_blob@,
            client_public@,
            server_public@,
            shared_mpint@,
        ));
    }
    out
}

/// The ECDH_REPLY packet from its three `string` fields.
fn build_reply(host_blob: &Vec<u8>, server_public: &Vec<u8>, signature_blob: &Vec<u8>) -> (r:
    Packet)
    requires
        host_blob@.len() <= 1000,
        server_public@.len() <= 1000,
        signature_blob@.len() <= 1000,
    ensures
        r.wf(),
        r.spec_payload() == seq![ECDH_KEX_REPLY] + enc_string(host_blob@) + enc_string(
            server_public@,
        ) + enc_string(signature_blob@),
{
    let mut reply = Packet::new(MessageType::KeyExchange(ECDH_KEX_REPLY));
    match &mut reply {
        Packet::Payload(p) => {
            codec::write_bytes(p, host_blob.as_slice());
            codec::write_bytes(p, server_public.as_slice());
            codec::write_bytes(p, signature_blob.as_slice());
        },
        Packet::Raw(_, _) => {},
    }
    proof {
        assert(reply.spec_payload() =~= seq![ECDH_KEX_REPLY] + enc_string(host_blob@) + enc_string(
            server_public@,
        ) + enc_string(signature_blob@));
    }
    reply
}

/// Whether a packet is an acceptable ECDH_INIT: the right message number
/// and a well-formed 32-byte ephemeral public key.
pub open spec fn ecdh_init_accepted(packet: Packet) -> bool {
    &&& packet.spec_payload().len() > 0
    &&& packet.spec_payload()[0] == ECDH_KEX_INIT
    &&& dec_string(packet.spec_payload(), 1) matches Some((q, _)) && q.len() == 32
}

/// What a completed step guarantees: the state holds the exchange hash and
/// `mpint(K)` for the clamped scalar, and the reply carries the host key,
/// the server's ephemeral public key and the signature over the hash.
pub open spec fn kex_step_ok(
    pre: Curve25519,
    post: Curve25519,
    hash_data: HashData,
    host_key: Ed25519KeyPair,
    packet: Packet,
    secret: Seq<u8>,
    reply: Packet,
) -> bool {
    let client_public = dec_string(packet.spec_payload(), 1).unwrap().0;
    let clamped = spec_clamp(secret);
    let h = spec_exchange_hash(hash_data, host_key.spec_public(), client_public, clamped);
    &&& ecdh_init_accepted(packet)
    &&& post.spec_exchange_hash() == Some(h)
    &&& post.spec_shared_secret() == Some(spec_shared_mpint(clamped, client_public))
    &&& reply.wf()
    &&& reply.spec_payload() == spec_reply_payload(
        host_key.spec_public(),
        clamped,
        ed25519_sign_of(h, host_key.spec_private().unwrap()),
    )
}

} // verus!
