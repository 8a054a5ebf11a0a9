//! The per-connection state machine: the banner exchange, the transport
//! (encrypt, MAC, sequence numbers), and the dispatch of every message the
//! server consumes.

use vstd::prelude::*;
use vstd::string::StringSliceAdditionalSpecFns;

use crate::algorithm;
use crate::algorithm::{
    algs_of_names, spec_negotiate, AlgorithmId, CompressionAlgorithm, EncryptionAlgorithm,
    KeyExchangeAlgorithm, MacAlgorithm, PublicKeyAlgorithm,
};
use crate::channel::{Channel, ChannelId};
use crate::codec;
use crate::codec::{
    be32, dec_bool, dec_name_list, dec_string, dec_uint32, enc_bool, enc_name_list, enc_string,
    u32_from_be,
};
use crate::error::ConnectionError;
use crate::kex::{Curve25519, HashData, KexResult};
use crate::mac::{spec_mac, Hmac};
use crate::message::MessageType;
use crate::packet::{spec_frame, Packet, MAX_PACKET_LENGTH};
use crate::primitives::{sha256_of, AesCtr};
use crate::protocol;
use crate::server::ServerConfig;

verus! {

/// Where a connection stands: before the first KEXINIT, inside a key
/// exchange, or established. A KEXINIT while established re-enters the
/// exchange (rekey).
#[derive(Clone, Copy, PartialEq, Eq, Structural, Debug)]
pub enum ConnectionState {
    Initial,
    KeyExchange,
    Established,
}

/// The role of this side; this library implements the server.
pub enum ConnectionType {
    Server(ServerConfig),
}

/// Work the connection asks the I/O layer to perform on a channel's
/// terminal.
pub enum ChannelAction {
    /// Allocate a pseudo-terminal for the channel with this geometry.
    OpenPty { channel: ChannelId, term: Vec<u8>, chars: u16, rows: u16, pixel_width: u16, pixel_height: u16, modes: Vec<u8> },
    /// Spawn the login shell on the channel's terminal.
    SpawnShell { channel: ChannelId },
    /// Write these bytes to the channel's terminal.
    WriteData { channel: ChannelId, data: Vec<u8> },
}

/// The sequence number after one more packet: one higher, wrapping.
pub open spec fn seq_step(n: u32) -> u32 {
    if n == 0xFFFFFFFF {
        0u32
    } else {
        (n + 1) as u32
    }
}

/// The sequence number after `k` packets from a fresh counter.
pub open spec fn seq_after(k: nat) -> u32
    decreases k,
{
    if k == 0 {
        0u32
    } else {
        seq_step(seq_after((k - 1) as nat))
    }
}

/// Sequence numbers: across the first N packets of a direction the
/// observed values are 0, 1, ..., N-1; each send and receive steps its
/// counter by `seq_step`, key changes leave both counters alone, and this
/// law closes the chain.
pub proof fn lemma_sequence_numbers(k: nat)
    requires
        k < 0x100000000,
    ensures
        seq_after(k) == k,
    decreases k,
{
    if k > 0 {
        lemma_sequence_numbers((k - 1) as nat);
    }
}

/// One direction's key material, derived per RFC 4253 section 7.2:
/// `HASH(K || H || label || session_id)`, with `K` already in its `mpint`
/// form.
pub open spec fn spec_derived_key(k: Seq<u8>, h: Seq<u8>, label: u8, session_id: Seq<u8>) -> Seq<
    u8,
> {
    sha256_of(k + h + seq![label] + session_id)
}

/// The bytes a packet occupies on the wire before encryption: its raw form.
pub open spec fn spec_wire(p: Packet) -> Seq<u8> {
    match p {
        Packet::Raw(_, _) => p.spec_data(),
        Packet::Payload(_) => spec_frame(p.spec_payload()),
    }
}

/// The top-level per-peer entity: banners and KEXINIT captures for the
/// exchange hash, the running key exchange, the session id, one
/// cipher-and-MAC pair per direction (so each direction's two are
/// installed together), the two sequence counters, the queue of deferred
/// outbound packets, the channel table, and the pending terminal work.
pub struct Connection {
    /// The role and configuration.
    pub conn_type: ConnectionType,
    /// The captured banners and KEXINIT payloads.
    pub hash_data: HashData,
    /// Where the state machine stands.
    pub state: ConnectionState,
    /// The running key exchange, while one is running.
    pub key_exchange: Option<Curve25519>,
    /// The first exchange hash, fixed for the connection's lifetime.
    pub session_id: Option<Vec<u8>>,
    /// The inbound cipher and MAC, installed as a pair on receiving the
    /// client's NEWKEYS.
    pub keys_in: Option<(AesCtr, Hmac)>,
    /// The outbound cipher and MAC, installed as a pair when the server's
    /// NEWKEYS passes the send path.
    pub keys_out: Option<(AesCtr, Hmac)>,
    /// The next outbound pair: derived when the exchange completes, and
    /// waiting for the server's NEWKEYS to go out.
    pub pending_out: Option<(AesCtr, Hmac)>,
    /// The sequence counters (inbound, outbound); never reset.
    pub seq: (u32, u32),
    /// Outbound packets queued behind the direct response.
    pub tx_queue: Vec<Packet>,
    /// The live channels, in ascending id order.
    pub channels: Vec<Channel>,
    /// Terminal work for the I/O layer, in order.
    pub actions: Vec<ChannelAction>,
    /// Whether `ssh-userauth` has been accepted.
    pub service_accepted: bool,
    /// Whether the user has authenticated.
    pub authenticated: bool,
}

impl Connection {
    /// The configuration of this connection's server.
    pub open spec fn spec_config(self) -> ServerConfig {
        match self.conn_type {
            ConnectionType::Server(config) => config,
        }
    }

    /// Well-formed: the host key is usable, every queued packet is sound,
    /// the hash data is complete while a key exchange runs, and the
    /// channel table is in ascending id order with windows within their
    /// initial bounds. Each direction's cipher and MAC travel as one pair
    /// by construction.
    pub open spec fn wf(self) -> bool {
        &&& self.state == ConnectionState::KeyExchange ==> self.hash_data.complete()
        &&& self.spec_config().key.wf()
        &&& self.spec_config().key.spec_private() is Some
        &&& forall|i: int| 0 <= i < self.tx_queue.len() ==> (#[trigger] self.tx_queue[i]).wf()
        &&& forall|i: int, j: int|
            0 <= i < j < self.channels.len() ==> (#[trigger] self.channels[i]).id < (
            #[trigger] self.channels[j]).id
        &&& forall|i: int|
            0 <= i < self.channels.len() ==> (#[trigger] self.channels[i]).window_size <= self.channels[i].initial_window_size
    }

    /// A fresh server connection: initial state, zero sequence numbers,
    /// no keys, no channels.
    pub fn new(conn_type: ConnectionType) -> (r: Connection)
        requires
            (match conn_type {
                ConnectionType::Server(config) => config.key.wf() && config.key.spec_private()
                    is Some,
            }),
        ensures
            r.wf(),
            r.conn_type == conn_type,
            r.state == ConnectionState::Initial,
            r.key_exchange is None,
            r.session_id is None,
            r.keys_in is None,
            r.keys_out is None,
            r.pending_out is None,
            r.seq == (0u32, 0u32),
            r.tx_queue@ == Seq::<Packet>::empty(),
            r.channels@ == Seq::<Channel>::empty(),
            r.actions@ == Seq::<ChannelAction>::empty(),
            !r.service_accepted,
            !r.authenticated,
    {
        Connection {
            conn_type,
            hash_data: HashData::new(),
            state: ConnectionState::Initial,
            key_exchange: None,
            session_id: None,
            keys_in: None,
            keys_out: None,
            pending_out: None,
            seq: (0, 0),
            tx_queue: Vec::new(),
            channels: Vec::new(),
            actions: Vec::new(),
            service_accepted: false,
            authenticated: false,
        }
    }

    /// Whether a cipher is installed.
    pub fn is_encrypted(&self) -> (r: bool)
        ensures
            r == (self.keys_in is Some),
    {
        match &self.keys_in {
            Some(_) => true,
            None => false,
        }
    }

    /// The tag length on each received packet: 32 once the inbound MAC is
    /// installed, 0 before.
    pub fn mac_len(&self) -> (r: usize)
        ensures
            r == if self.keys_in is Some {
                32int
            } else {
                0int
            },
    {
        match &self.keys_in {
            Some(_) => 32,
            None => 0,
        }
    }

    /// The second cipher carries the same key and IV as the first and
    /// stands `n` bytes further into the stream.
    pub open spec fn cipher_advanced(pre: AesCtr, post: AesCtr, n: int) -> bool {
        &&& post.spec_key() == pre.spec_key()
        &&& post.spec_iv() == pre.spec_iv()
        &&& post.spec_offset() == pre.spec_offset() + n
    }

    /// Everything but the inbound cipher state is unchanged.
    pub open spec fn same_but_cipher_in(pre: Connection, post: Connection) -> bool {
        &&& post.conn_type == pre.conn_type
        &&& post.hash_data == pre.hash_data
        &&& post.state == pre.state
        &&& post.key_exchange == pre.key_exchange
        &&& post.session_id == pre.session_id
        &&& (post.keys_in is Some) == (pre.keys_in is Some)
        &&& post.keys_out == pre.keys_out
        &&& post.pending_out == pre.pending_out
        &&& post.seq == pre.seq
        &&& post.tx_queue == pre.tx_queue
        &&& post.channels == pre.channels
        &&& post.actions == pre.actions
        &&& post.service_accepted == pre.service_accepted
        &&& post.authenticated == pre.authenticated
    }

    /// Decrypt received bytes with the inbound cipher, which moves on by
    /// their number; without one, the bytes pass through unchanged.
    pub fn decrypt_incoming(&mut self, data: Vec<u8>) -> (r: Vec<u8>)
        ensures
            Connection::same_but_cipher_in(*old(self), *final(self)),
            r@.len() == data@.len(),
            match old(self).keys_in {
                Some(pair) => {
                    &&& r@ == crate::primitives::ctr_xor(
                        pair.0.spec_key(),
                        pair.0.spec_iv(),
                        pair.0.spec_offset(),
                        data@,
                    )
                    &&& final(self).keys_in matches Some(p2) && Connection::cipher_advanced(
                        pair.0,
                        p2.0,
                        data@.len() as int,
                    ) && p2.1 == pair.1
                },
                None => r@ == data@,
            },
    {
        match &mut self.keys_in {
            Some(pair) => pair.0.process(data.as_slice()),
            None => data,
        }
    }

    /// Everything but the outbound keys, the pending pair and the
    /// outbound sequence number is unchanged.
    pub open spec fn same_but_send(pre: Connection, post: Connection) -> bool {
        &&& post.conn_type == pre.conn_type
        &&& post.hash_data == pre.hash_data
        &&& post.state == pre.state
        &&& post.key_exchange == pre.key_exchange
        &&& post.session_id == pre.session_id
        &&& post.keys_in == pre.keys_in
        &&& post.seq.0 == pre.seq.0
        &&& post.tx_queue == pre.tx_queue
        &&& post.channels == pre.channels
        &&& post.actions == pre.actions
        &&& post.service_accepted == pre.service_accepted
        &&& post.authenticated == pre.authenticated
    }

    /// Produce the bytes that carry `packet` to the peer: the framed
    /// packet, XORed with the outbound keystream once a cipher is
    /// installed, followed by the tag over the cleartext and the current
    /// outbound sequence number once a MAC is installed; then step that
    /// counter. The MAC uses the counter value before the step. A NEWKEYS
    /// leaving through here switches the outbound direction to the pending
    /// pair: the NEWKEYS itself still travels under the old keys, and
    /// everything after it under the new.
    pub fn send_packet(&mut self, packet: Packet) -> (r: Vec<u8>)
        requires
            old(self).wf(),
            packet.wf(),
        ensures
            final(self).wf(),
            Connection::same_but_send(*old(self), *final(self)),
            final(self).seq.1 == seq_step(old(self).seq.1),
            ({
                let wire = spec_wire(packet);
                match old(self).keys_out {
                    Some(pair) => {
                        &&& r@.len() == wire.len() + 32
                        &&& r@.subrange(0, wire.len() as int) == crate::primitives::ctr_xor(
                            pair.0.spec_key(),
                            pair.0.spec_iv(),
                            pair.0.spec_offset(),
                            wire,
                        )
                        &&& r@.subrange(wire.len() as int, r@.len() as int) == spec_mac(
                            pair.1@,
                            wire,
                            old(self).seq.1,
                        )
                    },
                    None => r@ == wire,
                }
            }),
            ({
                let switching = packet.spec_payload()[0] == 21 && old(self).pending_out is Some;
                &&& final(self).pending_out == (if switching {
                    Option::<(AesCtr, Hmac)>::None
                } else {
                    old(self).pending_out
                })
                &&& if switching {
                    final(self).keys_out == old(self).pending_out
                } else {
                    match old(self).keys_out {
                        Some(pair) => final(self).keys_out matches Some(p2)
                            && Connection::cipher_advanced(
                            pair.0,
                            p2.0,
                            spec_wire(packet).len() as int,
                        ) && p2.1 == pair.1,
                        None => final(self).keys_out is None,
                    }
                }
            }),
    {
        let switching = match packet.msg_type() {
            MessageType::NewKeys => true,
            _ => false,
        };
        let raw = packet.to_raw();
        let ghost wire = spec_wire(packet);
        let sig: Option<Vec<u8>> = match &self.keys_out {
            Some(pair) => Some(pair.1.sign(raw.data().as_slice(), self.seq.1)),
            None => None,
        };
        let mut out: Vec<u8> = match &mut self.keys_out {
            Some(pair) => pair.0.process(raw.data().as_slice()),
            None => {
                let mut v: Vec<u8> = Vec::new();
                codec::write_raw_bytes(&mut v, raw.data().as_slice());
                assert(v@ =~= wire);
                v
            },
        };
        let ghost ciphertext = out@;
        match sig {
            Some(s) => {
                codec::write_raw_bytes(&mut out, s.as_slice());
                assert(out@.subrange(wire.len() as int, out@.len() as int) =~= s@);
                assert(out@.subrange(0, wire.len() as int) =~= ciphertext);
            },
            None => {},
        }
        if switching && self.pending_out.is_some() {
            self.keys_out = self.pending_out.take();
        }
        if self.seq.1 == 0xFFFFFFFF {
            self.seq.1 = 0;
        } else {
            self.seq.1 = self.seq.1 + 1;
        }
        out
    }

    /// Accept one received frame (already decrypted) with its tag: check
    /// the tag over the cleartext and the current inbound sequence number,
    /// parse the frame, and step that counter. A tag mismatch is an
    /// integrity error and nothing changes.
    pub fn accept_frame(&mut self, raw: Vec<u8>, sig: &[u8]) -> (r: Result<
        Packet,
        ConnectionError,
    >)
        requires
            old(self).wf(),
        ensures
            final(self).wf(),
            match r {
                Ok(p) => {
                    &&& (old(self).keys_in matches Some(pair) ==> sig@ == spec_mac(
                        pair.1@,
                        raw@,
                        old(self).seq.0,
                    ))
                    &&& p.wf()
                    &&& p is Raw
                    &&& p.spec_data() == raw@
                    &&& *final(self) == (Connection {
                        seq: (seq_step(old(self).seq.0), old(self).seq.1),
                        ..*old(self)
                    })
                },
                Err(e) => {
                    &&& *final(self) == *old(self)
                    &&& (e == ConnectionError::IntegrityError || e
                        == ConnectionError::ProtocolError)
                    &&& (old(self).keys_in matches Some(pair) && sig@ != spec_mac(
                        pair.1@,
                        raw@,
                        old(self).seq.0,
                    ) ==> e == ConnectionError::IntegrityError)
                    &&& ((old(self).keys_in matches Some(pair) && sig@ != spec_mac(
                        pair.1@,
                        raw@,
                        old(self).seq.0,
                    )) || raw@.len() < 6 || u32_from_be(raw@.subrange(0, 4)) != raw@.len() - 4
                        || raw@.len() > MAX_PACKET_LENGTH + 4 || raw@[4] + 6 > raw@.len())
                },
            },
    {
        match &self.keys_in {
            Some(pair) => {
                if !pair.1.verify(raw.as_slice(), self.seq.0, sig) {
                    return Err(ConnectionError::IntegrityError);
                }
            },
            None => {},
        }
        let packet = match Packet::read_from(raw) {
            Ok(p) => p,
            Err(e) => { return Err(e) },
        };
        if self.seq.0 == 0xFFFFFFFF {
            self.seq.0 = 0;
        } else {
            self.seq.0 = self.seq.0 + 1;
        }
        Ok(packet)
    }

    /// Pop the next deferred outbound packet, in queue order.
    pub fn pop_tx(&mut self) -> (r: Option<Packet>)
        requires
            old(self).wf(),
        ensures
            final(self).wf(),
            match r {
                Some(p) => old(self).tx_queue@.len() > 0 && p == old(self).tx_queue@[0] && p.wf()
                    && *final(self) == (Connection {
                    tx_queue: final(self).tx_queue,
                    ..*old(self)
                }) && final(self).tx_queue@ == old(self).tx_queue@.drop_first(),
                None => old(self).tx_queue@.len() == 0 && *final(self) == *old(self),
            },
    {
        if self.tx_queue.len() == 0 {
            None
        } else {
            let p = self.tx_queue.remove(0);
            assert(self.tx_queue@ =~= old(self).tx_queue@.drop_first());
            Some(p)
        }
    }

    /// The server's banner line to send first; the banner itself is
    /// captured for the exchange hash.
    pub fn send_id(&mut self) -> (r: Vec<u8>)
        ensures
            r@ == protocol::spec_banner() + seq![protocol::CARRIAGE_RETURN, protocol::LINE_FEED],
            *final(self) == (Connection { hash_data: final(self).hash_data, ..*old(self) }),
            final(self).hash_data == (HashData {
                server_id: Some(final(self).hash_data.server_id.unwrap()),
                ..old(self).hash_data
            }),
            final(self).hash_data.server_id.unwrap()@ == protocol::spec_banner(),
    {
        let banner = protocol::banner();
        self.hash_data.server_id = Some(banner);
        protocol::send_identification()
    }

    /// Handle a KEXINIT from the client (first exchange or rekey): parse
    /// the offered name-lists, negotiate each of the five categories,
    /// capture both KEXINIT payloads for the exchange hash, answer with
    /// the server's KEXINIT, and enter the key exchange.
    pub fn kex_init(&mut self, packet: &Packet) -> (r: Result<Option<Packet>, ConnectionError>)
        requires
            old(self).wf(),
            packet.wf(),
            old(self).state != ConnectionState::KeyExchange,
            old(self).hash_data.client_id is Some,
            old(self).hash_data.server_id is Some,
        ensures
            final(self).wf(),
            post_kex_init(*old(self), *final(self), packet.spec_payload(), r),
    {
        let payload = packet.payload_of();
        let p = payload.as_slice();
        let ghost pl = payload@;
        if codec::read_raw_bytes(p, 1, 16).is_none() {
            return Err(ConnectionError::ProtocolError);
        }
        let (kex_algos, p1) = match algorithm::read_enum_list::<KeyExchangeAlgorithm>(p, 17) {
            Some(v) => v,
            None => {
                proof {
                    lemma_nth_list_none(pl, 0, 7);
                }
                return Err(ConnectionError::ProtocolError)
            },
        };
        assert(spec_nth_list(pl, 0) == Some((spec_nth_list(pl, 0).unwrap().0, p1 as int)));
        let (host_algos, p2) = match algorithm::read_enum_list::<PublicKeyAlgorithm>(p, p1) {
            Some(v) => v,
            None => {
                proof {
                    lemma_nth_list_none(pl, 1, 7);
                }
                return Err(ConnectionError::ProtocolError)
            },
        };
        assert(spec_nth_list(pl, 1) == Some((spec_nth_list(pl, 1).unwrap().0, p2 as int)));
        let (_enc_c2s, p3) = match algorithm::read_enum_list::<EncryptionAlgorithm>(p, p2) {
            Some(v) => v,
            None => {
                proof {
                    lemma_nth_list_none(pl, 2, 7);
                }
                return Err(ConnectionError::ProtocolError)
            },
        };
        assert(spec_nth_list(pl, 2) == Some((spec_nth_list(pl, 2).unwrap().0, p3 as int)));
        let (enc_s2c, p4) = match algorithm::read_enum_list::<EncryptionAlgorithm>(p, p3) {
            Some(v) => v,
            None => {
                proof {
                    lemma_nth_list_none(pl, 3, 7);
                }
                return Err(ConnectionError::ProtocolError)
            },
        };
        assert(spec_nth_list(pl, 3) == Some((spec_nth_list(pl, 3).unwrap().0, p4 as int)));
        let (_mac_c2s, p5) = match algorithm::read_enum_list::<MacAlgorithm>(p, p4) {
            Some(v) => v,
            None => {
                proof {
                    lemma_nth_list_none(pl, 4, 7);
                }
                return Err(ConnectionError::ProtocolError)
            },
        };
        assert(spec_nth_list(pl, 4) == Some((spec_nth_list(pl, 4).unwrap().0, p5 as int)));
        let (mac_s2c, p6) = match algorithm::read_enum_list::<MacAlgorithm>(p, p5) {
            Some(v) => v,
            None => {
                proof {
                    lemma_nth_list_none(pl, 5, 7);
                }
                return Err(ConnectionError::ProtocolError)
            },
        };
        assert(spec_nth_list(pl, 5) == Some((spec_nth_list(pl, 5).unwrap().0, p6 as int)));
        let (_comp_c2s, p7) = match algorithm::read_enum_list::<CompressionAlgorithm>(p, p6) {
            Some(v) => v,
            None => {
                proof {
                    lemma_nth_list_none(pl, 6, 7);
                }
                return Err(ConnectionError::ProtocolError)
            },
        };
        assert(spec_nth_list(pl, 6) == Some((spec_nth_list(pl, 6).unwrap().0, p7 as int)));
        let (comp_s2c, _p8) = match algorithm::read_enum_list::<CompressionAlgorithm>(p, p7) {
            Some(v) => v,
            None => { return Err(ConnectionError::ProtocolError) },
        };
        assert(spec_nth_list(pl, 7) is Some);
        assert(kexinit_parse_ok(pl));
        assert(kex_algos@ == spec_client_list::<KeyExchangeAlgorithm>(pl, 0));
        assert(host_algos@ == spec_client_list::<PublicKeyAlgorithm>(pl, 1));
        assert(enc_s2c@ == spec_client_list::<EncryptionAlgorithm>(pl, 3));
        assert(mac_s2c@ == spec_client_list::<MacAlgorithm>(pl, 5));
        assert(comp_s2c@ == spec_client_list::<CompressionAlgorithm>(pl, 7));

        let kex_list = algorithm::key_exchange_algorithms();
        let host_list = algorithm::host_key_algorithms();
        let enc_list = algorithm::encryption_algorithms();
        let mac_list = algorithm::mac_algorithms();
        let comp_list = algorithm::compression_algorithms();
        let _kex_algo = match algorithm::negotiate(kex_list.as_slice(), kex_algos.as_slice()) {
            Ok(a) => a,
            Err(e) => { return Err(e) },
        };
        let _host_algo = match algorithm::negotiate(host_list.as_slice(), host_algos.as_slice()) {
            Ok(a) => a,
            Err(e) => { return Err(e) },
        };
        let _enc_algo = match algorithm::negotiate(enc_list.as_slice(), enc_s2c.as_slice()) {
            Ok(a) => a,
            Err(e) => { return Err(e) },
        };
        let _mac_algo = match algorithm::negotiate(mac_list.as_slice(), mac_s2c.as_slice()) {
            Ok(a) => a,
            Err(e) => { return Err(e) },
        };
        let _comp_algo = match algorithm::negotiate(comp_list.as_slice(), comp_s2c.as_slice()) {
            Ok(a) => a,
            Err(e) => { return Err(e) },
        };

        let cookie = crate::primitives::random_bytes(16);
        let response = build_kexinit(cookie);
        self.hash_data.client_kexinit = Some(payload);
        self.hash_data.server_kexinit = Some(response.payload_of());
        self.state = ConnectionState::KeyExchange;
        self.key_exchange = Some(Curve25519::new());
        Ok(Some(response))
    }

    /// Handle one key-exchange message while the exchange runs: one step
    /// of the Curve25519 engine. When the step completes, the server's
    /// NEWKEYS is queued behind the reply, and the session id is fixed to
    /// the first exchange hash of the connection.
    #[verifier::rlimit(100)]
    pub fn key_exchange(&mut self, packet: &Packet) -> (r: Result<
        Option<Packet>,
        ConnectionError,
    >)
        requires
            old(self).wf(),
            packet.wf(),
            old(self).state == ConnectionState::KeyExchange,
        ensures
            final(self).wf(),
            post_kex_step(*old(self), *final(self), *packet, r),
    {
        let mut kex = match self.key_exchange.take() {
            Some(k) => k,
            None => { return Err(ConnectionError::KeyExchangeError) },
        };
        let key = match &self.conn_type {
            ConnectionType::Server(config) => &config.key,
        };
        let result = kex.process(&self.hash_data, key, packet);
        match result {
            KexResult::Done(reply) => {
                if self.session_id.is_none() {
                    self.session_id = match kex.exchange_hash() {
                        Some(h) => {
                            let mut copy: Vec<u8> = Vec::new();
                            codec::write_raw_bytes(&mut copy, h.as_slice());
                            Some(copy)
                        },
                        None => None,
                    };
                }
                // Derive the next outbound pair now; it takes over when
                // the server's NEWKEYS passes the send path.
                {
                    let k = match kex.shared_secret() {
                        Some(v) => v,
                        None => { return Err(ConnectionError::KeyExchangeError) },
                    };
                    let h = match kex.exchange_hash() {
                        Some(v) => v,
                        None => { return Err(ConnectionError::KeyExchangeError) },
                    };
                    let sid = match &self.session_id {
                        Some(v) => v,
                        None => { return Err(ConnectionError::KeyExchangeError) },
                    };
                    let iv_s2c = derive_key(k, h, 66, sid);
                    let enc_s2c = derive_key(k, h, 68, sid);
                    let mac_s2c = derive_key(k, h, 70, sid);
                    let cipher_out = AesCtr::new(
                        enc_s2c.as_slice(),
                        vstd::slice::slice_subrange(iv_s2c.as_slice(), 0, 16),
                    );
                    self.pending_out = Some((cipher_out, Hmac::new(mac_s2c)));
                }
                self.key_exchange = Some(kex);
                let newkeys = Packet::new(MessageType::NewKeys);
                assert(newkeys.spec_payload() =~= seq![21u8]);
                self.tx_queue.push(newkeys);
                proof {
                    assert(self.tx_queue@.drop_last() =~= old(self).tx_queue@);
                    assert(self.tx_queue@.last() == newkeys);
                    assert(forall|i: int|
                        0 <= i < self.tx_queue@.len() ==> (#[trigger] self.tx_queue@[i]).wf());
                }
                Ok(Some(reply))
            },
            KexResult::Reply(reply) => {
                self.key_exchange = Some(kex);
                Ok(Some(reply))
            },
            KexResult::Failed => {
                self.key_exchange = Some(kex);
                Err(ConnectionError::KeyExchangeError)
            },
        }
    }

    /// Handle the client's NEWKEYS: derive the inbound key material from
    /// the shared secret, the exchange hash and the session id, install
    /// the inbound cipher and MAC as one pair, destroy the key-exchange
    /// state, and establish the connection. The outbound pair switched
    /// when the server's own NEWKEYS went out.
    pub fn new_keys(&mut self) -> (r: Result<Option<Packet>, ConnectionError>)
        requires
            old(self).wf(),
            old(self).state == ConnectionState::KeyExchange,
        ensures
            final(self).wf(),
            post_new_keys(*old(self), *final(self), r),
    {
        let (k, h) = match &self.key_exchange {
            Some(kex) => {
                let k = match kex.shared_secret() {
                    Some(v) => v,
                    None => { return Err(ConnectionError::KeyGenerationError) },
                };
                let h = match kex.exchange_hash() {
                    Some(v) => v,
                    None => { return Err(ConnectionError::KeyGenerationError) },
                };
                (k, h)
            },
            None => { return Err(ConnectionError::KeyGenerationError) },
        };
        let sid = match &self.session_id {
            Some(v) => v,
            None => { return Err(ConnectionError::KeyGenerationError) },
        };
        let iv_c2s = derive_key(k, h, 65, sid);
        let enc_c2s = derive_key(k, h, 67, sid);
        let mac_c2s = derive_key(k, h, 69, sid);
        let cipher_in = AesCtr::new(
            enc_c2s.as_slice(),
            vstd::slice::slice_subrange(iv_c2s.as_slice(), 0, 16),
        );
        self.keys_in = Some((cipher_in, Hmac::new(mac_c2s)));
        self.state = ConnectionState::Established;
        self.key_exchange = None;
        Ok(None)
    }

    /// Read the client's banner out of the received bytes: the first line
    /// beginning with `SSH-`, captured for the exchange hash; a buffer
    /// without one is a protocol error.
    pub fn read_id(&mut self, data: &[u8]) -> (r: Result<(), ConnectionError>)
        ensures
            match r {
                Ok(()) => {
                    &&& protocol::spec_read_identification(data@) matches Some(id)
                    &&& *final(self) == (Connection {
                        hash_data: final(self).hash_data,
                        ..*old(self)
                    })
                    &&& final(self).hash_data == (HashData {
                        client_id: Some(final(self).hash_data.client_id.unwrap()),
                        ..old(self).hash_data
                    })
                    &&& Some(final(self).hash_data.client_id.unwrap()@)
                        == protocol::spec_read_identification(data@)
                },
                Err(e) => {
                    &&& protocol::spec_read_identification(data@) is None
                    &&& e == ConnectionError::ProtocolError
                    &&& *final(self) == *old(self)
                },
            },
    {
        match protocol::parse_identification(data) {
            Some(id) => {
                self.hash_data.client_id = Some(id);
                Ok(())
            },
            None => Err(ConnectionError::ProtocolError),
        }
    }

    /// The index of the channel with this local id, if it is in the table.
    fn find_channel(&self, id: ChannelId) -> (r: Option<usize>)
        requires
            self.wf(),
        ensures
            match r {
                Some(i) => i < self.channels@.len() && self.channels@[i as int].id == id
                    && has_channel(self.channels@, id) && channel_at(self.channels@, id)
                    == i as int,
                None => !has_channel(self.channels@, id),
            },
    {
        let mut i: usize = 0;
        while i < self.channels.len()
            invariant
                self.wf(),
                i <= self.channels@.len(),
                forall|k: int| 0 <= k < i ==> (#[trigger] self.channels@[k]).id != id,
            decreases self.channels@.len() - i,
        {
            if self.channels[i].id() == id {
                proof {
                    let j = channel_at(self.channels@, id);
                    assert(0 <= j < self.channels@.len() && self.channels@[j].id == id);
                    if j != i {
                        assert(self.channels@[j].id != self.channels@[i as int].id);
                    }
                }
                return Some(i);
            }
            i = i + 1;
        }
        None
    }

    /// Handle a SERVICE_REQUEST: accept and echo `ssh-userauth`; any
    /// other service is fatal.
    pub fn service_request(&mut self, packet: &Packet) -> (r: Result<
        Option<Packet>,
        ConnectionError,
    >)
        requires
            old(self).wf(),
            packet.wf(),
        ensures
            final(self).wf(),
            post_service_request(*old(self), *final(self), packet.spec_payload(), r),
    {
        let payload = packet.payload_of();
        let (name, _) = match codec::read_string(payload.as_slice(), 1) {
            Some(v) => v,
            None => { return Err(ConnectionError::ProtocolError) },
        };
        if !codec::eq_bytes(name.as_slice(), "ssh-userauth".as_bytes()) {
            return Err(ConnectionError::ProtocolError);
        }
        proof {
            lemma_auth_literal_lens();
        }
        let mut resp = Packet::new(MessageType::ServiceAccept);
        match &mut resp {
            Packet::Payload(p) => {
                codec::write_bytes(p, name.as_slice());
            },
            Packet::Raw(_, _) => {},
        }
        assert(resp.spec_payload() =~= seq![6u8] + enc_string(name@));
        self.service_accepted = true;
        Ok(Some(resp))
    }

    /// Handle a USERAUTH_REQUEST: the `password` method against the
    /// configured password decides; any other method fails without ending
    /// the connection, and a malformed request is fatal.
    pub fn user_auth_request(&mut self, packet: &Packet) -> (r: Result<
        Option<Packet>,
        ConnectionError,
    >)
        requires
            old(self).wf(),
            packet.wf(),
        ensures
            final(self).wf(),
            post_user_auth(*old(self), *final(self), packet.spec_payload(), r),
    {
        let payload = packet.payload_of();
        let p = payload.as_slice();
        let (_user, q1) = match codec::read_string(p, 1) {
            Some(v) => v,
            None => { return Err(ConnectionError::ProtocolError) },
        };
        let (_service, q2) = match codec::read_string(p, q1) {
            Some(v) => v,
            None => { return Err(ConnectionError::ProtocolError) },
        };
        let (method, q3) = match codec::read_string(p, q2) {
            Some(v) => v,
            None => { return Err(ConnectionError::ProtocolError) },
        };
        let success: bool;
        if codec::eq_bytes(method.as_slice(), "password".as_bytes()) {
            let (change, q4) = match codec::read_bool(p, q3) {
                Some(v) => v,
                None => { return Err(ConnectionError::ProtocolError) },
            };
            if change {
                return Err(ConnectionError::ProtocolError);
            }
            let (pass, _) = match codec::read_string(p, q4) {
                Some(v) => v,
                None => { return Err(ConnectionError::ProtocolError) },
            };
            let expected = match &self.conn_type {
                ConnectionType::Server(config) => &config.password,
            };
            success = codec::eq_bytes(pass.as_slice(), expected.as_slice());
        } else {
            success = false;
        }
        if success {
            self.authenticated = true;
            let resp = Packet::new(MessageType::UserAuthSuccess);
            assert(resp.spec_payload() =~= seq![52u8]);
            Ok(Some(resp))
        } else {
            proof {
                lemma_auth_literal_lens();
            }
            let mut resp = Packet::new(MessageType::UserAuthFailure);
            match &mut resp {
                Packet::Payload(pp) => {
                    codec::write_string(pp, "password");
                    codec::write_bool(pp, false);
                },
                Packet::Raw(_, _) => {},
            }
            assert(resp.spec_payload() =~= seq![51u8] + enc_string("password".spec_bytes())
                + enc_bool(false));
            Ok(Some(resp))
        }
    }

    /// Handle a CHANNEL_OPEN: allocate the next id for a `session`
    /// channel and confirm the client's window and packet bound back;
    /// refuse any other channel type.
    pub fn channel_open(&mut self, packet: &Packet) -> (r: Result<
        Option<Packet>,
        ConnectionError,
    >)
        requires
            old(self).wf(),
            packet.wf(),
        ensures
            final(self).wf(),
            post_channel_open(*old(self), *final(self), packet.spec_payload(), r),
    {
        let payload = packet.payload_of();
        let p = payload.as_slice();
        let (ctype, q1) = match codec::read_string(p, 1) {
            Some(v) => v,
            None => { return Err(ConnectionError::ProtocolError) },
        };
        let (peer_id, q2) = match codec::read_uint32(p, q1) {
            Some(v) => v,
            None => { return Err(ConnectionError::ProtocolError) },
        };
        let (window_size, q3) = match codec::read_uint32(p, q2) {
            Some(v) => v,
            None => { return Err(ConnectionError::ProtocolError) },
        };
        let (max_packet_size, _) = match codec::read_uint32(p, q3) {
            Some(v) => v,
            None => { return Err(ConnectionError::ProtocolError) },
        };
        if !codec::eq_bytes(ctype.as_slice(), "session".as_bytes()) {
            let mut resp = Packet::new(MessageType::ChannelOpenFailure);
            match &mut resp {
                Packet::Payload(pp) => {
                    codec::write_uint32(pp, peer_id);
                    codec::write_uint32(pp, 3);
                    codec::write_uint32(pp, 0);
                    codec::write_uint32(pp, 0);
                },
                Packet::Raw(_, _) => {},
            }
            assert(resp.spec_payload() =~= seq![92u8] + be32(peer_id) + be32(3) + be32(0) + be32(
                0,
            ));
            return Ok(Some(resp));
        }
        let id: u32;
        if self.channels.len() == 0 {
            id = 0;
        } else {
            let last = self.channels[self.channels.len() - 1].id();
            if last == 0xFFFFFFFF {
                return Err(ConnectionError::ProtocolError);
            }
            id = last + 1;
        }
        let channel = Channel::new(id, peer_id, window_size, max_packet_size);
        self.channels.push(channel);
        proof {
            assert(forall|i: int|
                0 <= i < old(self).channels@.len() ==> (#[trigger] old(self).channels@[i]).id
                    < id);
        }
        let mut resp = Packet::new(MessageType::ChannelOpenConfirmation);
        match &mut resp {
            Packet::Payload(pp) => {
                codec::write_uint32(pp, peer_id);
                codec::write_uint32(pp, id);
                codec::write_uint32(pp, window_size);
                codec::write_uint32(pp, max_packet_size);
            },
            Packet::Raw(_, _) => {},
        }
        assert(resp.spec_payload() =~= seq![91u8] + be32(peer_id) + be32(id) + be32(window_size)
            + be32(max_packet_size));
        Ok(Some(resp))
    }

    /// Handle a CHANNEL_REQUEST: queue the terminal work a `pty-req` or
    /// `shell` asks for and confirm it when a reply is wanted; answer an
    /// unknown request with a failure; ignore an unknown channel.
    pub fn channel_request(&mut self, packet: &Packet) -> (r: Result<
        Option<Packet>,
        ConnectionError,
    >)
        requires
            old(self).wf(),
            packet.wf(),
        ensures
            final(self).wf(),
            post_channel_request(*old(self), *final(self), packet.spec_payload(), r),
    {
        let payload = packet.payload_of();
        let p = payload.as_slice();
        let (recipient, q1) = match codec::read_uint32(p, 1) {
            Some(v) => v,
            None => { return Err(ConnectionError::ProtocolError) },
        };
        let (name, q2) = match codec::read_string(p, q1) {
            Some(v) => v,
            None => { return Err(ConnectionError::ProtocolError) },
        };
        let (want_reply, q3) = match codec::read_bool(p, q2) {
            Some(v) => v,
            None => { return Err(ConnectionError::ProtocolError) },
        };
        let idx = match self.find_channel(recipient) {
            Some(i) => i,
            None => { return Ok(None) },
        };
        let peer_id = self.channels[idx].peer_id();
        let known: bool;
        if codec::eq_bytes(name.as_slice(), "pty-req".as_bytes()) {
            let (term, r1) = match codec::read_string(p, q3) {
                Some(v) => v,
                None => { return Err(ConnectionError::ProtocolError) },
            };
            let (chars, r2) = match codec::read_uint32(p, r1) {
                Some(v) => v,
                None => { return Err(ConnectionError::ProtocolError) },
            };
            let (rows, r3) = match codec::read_uint32(p, r2) {
                Some(v) => v,
                None => { return Err(ConnectionError::ProtocolError) },
            };
            let (pixel_width, r4) = match codec::read_uint32(p, r3) {
                Some(v) => v,
                None => { return Err(ConnectionError::ProtocolError) },
            };
            let (pixel_height, r5) = match codec::read_uint32(p, r4) {
                Some(v) => v,
                None => { return Err(ConnectionError::ProtocolError) },
            };
            let (modes, _) = match codec::read_string(p, r5) {
                Some(v) => v,
                None => { return Err(ConnectionError::ProtocolError) },
            };
            self.actions.push(
                ChannelAction::OpenPty {
                    channel: recipient,
                    term,
                    chars: #[verifier::truncate] (chars as u16),
                    rows: #[verifier::truncate] (rows as u16),
                    pixel_width: #[verifier::truncate] (pixel_width as u16),
                    pixel_height: #[verifier::truncate] (pixel_height as u16),
                    modes,
                },
            );
            assert(self.actions@.drop_last() =~= old(self).actions@);
            known = true;
        } else if codec::eq_bytes(name.as_slice(), "shell".as_bytes()) {
            self.actions.push(ChannelAction::SpawnShell { channel: recipient });
            assert(self.actions@ =~= old(self).actions@.push(
                ChannelAction::SpawnShell { channel: recipient },
            ));
            known = true;
        } else {
            known = false;
        }
        if want_reply {
            let mut resp = Packet::new(
                if known {
                    MessageType::ChannelSuccess
                } else {
                    MessageType::ChannelFailure
                },
            );
            match &mut resp {
                Packet::Payload(pp) => {
                    codec::write_uint32(pp, peer_id);
                },
                Packet::Raw(_, _) => {},
            }
            assert(resp.spec_payload() =~= seq![
                if known {
                    99u8
                } else {
                    100u8
                },
            ] + be32(peer_id));
            Ok(Some(resp))
        } else {
            Ok(None)
        }
    }

    /// Handle CHANNEL_DATA: hand the bytes to the channel's terminal,
    /// consume the local window, and top it back up with a WINDOW_ADJUST
    /// once it has fallen below half.
    pub fn channel_data(&mut self, packet: &Packet) -> (r: Result<
        Option<Packet>,
        ConnectionError,
    >)
        requires
            old(self).wf(),
            packet.wf(),
        ensures
            final(self).wf(),
            post_channel_data(*old(self), *final(self), packet.spec_payload(), r),
    {
        let payload = packet.payload_of();
        let p = payload.as_slice();
        let (recipient, q1) = match codec::read_uint32(p, 1) {
            Some(v) => v,
            None => { return Err(ConnectionError::ProtocolError) },
        };
        let (data, _) = match codec::read_string(p, q1) {
            Some(v) => v,
            None => { return Err(ConnectionError::ProtocolError) },
        };
        let idx = match self.find_channel(recipient) {
            Some(i) => i,
            None => { return Err(ConnectionError::ProtocolError) },
        };
        if data.len() > self.channels[idx].window_size() as usize {
            return Err(ConnectionError::ProtocolError);
        }
        let peer_id = self.channels[idx].peer_id();
        let len = data.len() as u32;
        let adjust = {
            let ch = &mut self.channels[idx];
            ch.consume_local_window(len)
        };
        proof {
            assert(self.channels@ =~= old(self).channels@.update(
                idx as int,
                self.channels@[idx as int],
            ));
        }
        match adjust {
            Some(amount) => {
                let mut adj = Packet::new(MessageType::ChannelWindowAdjust);
                match &mut adj {
                    Packet::Payload(pp) => {
                        codec::write_uint32(pp, peer_id);
                        codec::write_uint32(pp, amount);
                    },
                    Packet::Raw(_, _) => {},
                }
                assert(adj.spec_payload() =~= seq![93u8] + be32(peer_id) + be32(amount));
                self.tx_queue.push(adj);
                assert(self.tx_queue@.drop_last() =~= old(self).tx_queue@);
            },
            None => {},
        }
        self.actions.push(ChannelAction::WriteData { channel: recipient, data });
        assert(self.actions@.drop_last() =~= old(self).actions@);
        proof {
            assert(forall|i: int|
                0 <= i < self.tx_queue@.len() ==> (#[trigger] self.tx_queue@[i]).wf());
        }
        Ok(None)
    }

    /// Handle a WINDOW_ADJUST from the client: the peer window grows by
    /// the given amount, saturating at the u32 bound.
    pub fn channel_window_adjust(&mut self, packet: &Packet) -> (r: Result<
        Option<Packet>,
        ConnectionError,
    >)
        requires
            old(self).wf(),
            packet.wf(),
        ensures
            final(self).wf(),
            post_window_adjust(*old(self), *final(self), packet.spec_payload(), r),
    {
        let payload = packet.payload_of();
        let p = payload.as_slice();
        let (recipient, q1) = match codec::read_uint32(p, 1) {
            Some(v) => v,
            None => { return Err(ConnectionError::ProtocolError) },
        };
        let (amount, _) = match codec::read_uint32(p, q1) {
            Some(v) => v,
            None => { return Err(ConnectionError::ProtocolError) },
        };
        let idx = match self.find_channel(recipient) {
            Some(i) => i,
            None => { return Err(ConnectionError::ProtocolError) },
        };
        let ch = &mut self.channels[idx];
        ch.grow_peer_window(amount);
        proof {
            assert(self.channels@ =~= old(self).channels@.update(
                idx as int,
                self.channels@[idx as int],
            ));
        }
        Ok(None)
    }

    /// Handle a peer CHANNEL_CLOSE: drop the channel and answer with the
    /// server's own CHANNEL_CLOSE.
    pub fn channel_close(&mut self, packet: &Packet) -> (r: Result<
        Option<Packet>,
        ConnectionError,
    >)
        requires
            old(self).wf(),
            packet.wf(),
        ensures
            final(self).wf(),
            post_channel_close(*old(self), *final(self), packet.spec_payload(), r),
    {
        let payload = packet.payload_of();
        let (recipient, _) = match codec::read_uint32(payload.as_slice(), 1) {
            Some(v) => v,
            None => { return Err(ConnectionError::ProtocolError) },
        };
        let idx = match self.find_channel(recipient) {
            Some(i) => i,
            None => { return Err(ConnectionError::ProtocolError) },
        };
        let peer_id = self.channels[idx].peer_id();
        self.channels.remove(idx);
        proof {
            assert(self.channels@ =~= old(self).channels@.remove(idx as int));
            assert(forall|i: int, j: int|
                0 <= i < j < self.channels@.len() ==> (#[trigger] self.channels@[i]).id < (
                #[trigger] self.channels@[j]).id) by {
                assert(forall|i: int|
                    0 <= i < self.channels@.len() ==> (#[trigger] self.channels@[i]) == if i
                        < idx as int {
                        old(self).channels@[i]
                    } else {
                        old(self).channels@[i + 1]
                    });
            }
        }
        let mut resp = Packet::new(MessageType::ChannelClose);
        match &mut resp {
            Packet::Payload(pp) => {
                codec::write_uint32(pp, peer_id);
            },
            Packet::Raw(_, _) => {},
        }
        assert(resp.spec_payload() =~= seq![97u8] + be32(peer_id));
        Ok(Some(resp))
    }

    /// Queue terminal output towards the peer as CHANNEL_DATA: at most
    /// one chunk within the peer's window, the peer's packet bound and
    /// this library's own frame bound, consuming the peer window by its
    /// length. The number of bytes taken is returned; the caller offers
    /// the rest again later.
    pub fn channel_output(&mut self, id: ChannelId, data: &[u8]) -> (r: Result<
        usize,
        ConnectionError,
    >)
        requires
            old(self).wf(),
        ensures
            final(self).wf(),
            post_channel_output(*old(self), *final(self), id, data@, r),
    {
        let idx = match self.find_channel(id) {
            Some(i) => i,
            None => { return Err(ConnectionError::ProtocolError) },
        };
        let peer_id = self.channels[idx].peer_id();
        let maxp = self.channels[idx].max_packet_size();
        let window = self.channels[idx].peer_window_size;
        let mut chunk: usize = data.len();
        if chunk > maxp as usize {
            chunk = maxp as usize;
        }
        if chunk > window as usize {
            chunk = window as usize;
        }
        if chunk > 32000 {
            chunk = 32000;
        }
        assert(chunk == spec_chunk(data@.len() as int, maxp, window));
        if chunk == 0 {
            return Ok(0);
        }
        let piece = match codec::read_raw_bytes(data, 0, chunk) {
            Some((v, _)) => v,
            None => { return Err(ConnectionError::ProtocolError) },
        };
        let mut out = Packet::new(MessageType::ChannelData);
        match &mut out {
            Packet::Payload(pp) => {
                codec::write_uint32(pp, peer_id);
                codec::write_bytes(pp, piece.as_slice());
            },
            Packet::Raw(_, _) => {},
        }
        assert(out.spec_payload() =~= seq![94u8] + be32(peer_id) + crate::codec::enc_string(
            data@.subrange(0, chunk as int),
        ));
        let ch = &mut self.channels[idx];
        ch.consume_peer_window(chunk as u32);
        proof {
            assert(self.channels@ =~= old(self).channels@.update(
                idx as int,
                self.channels@[idx as int],
            ));
        }
        self.tx_queue.push(out);
        proof {
            assert(self.tx_queue@.drop_last() =~= old(self).tx_queue@);
            assert(forall|i: int|
                0 <= i < self.tx_queue@.len() ==> (#[trigger] self.tx_queue@[i]).wf());
        }
        Ok(chunk)
    }

    /// Close a channel from the server's side, on terminal EOF or child
    /// exit: queue CHANNEL_EOF then CHANNEL_CLOSE towards the peer and
    /// drop the channel from the table.
    pub fn close_channel(&mut self, id: ChannelId) -> (r: Result<(), ConnectionError>)
        requires
            old(self).wf(),
        ensures
            final(self).wf(),
            match r {
                Ok(()) => {
                    &&& has_channel(old(self).channels@, id)
                    &&& ({
                        let i = channel_at(old(self).channels@, id);
                        let peer = old(self).channels@[i].peer_id;
                        &&& final(self).channels@ == old(self).channels@.remove(i)
                        &&& final(self).tx_queue@.len() == old(self).tx_queue@.len() + 2
                        &&& final(self).tx_queue@.subrange(0, old(self).tx_queue@.len() as int)
                            == old(self).tx_queue@
                        &&& final(self).tx_queue@[old(self).tx_queue@.len() as int].spec_payload()
                            == seq![96u8] + be32(peer)
                        &&& final(self).tx_queue@.last().spec_payload() == seq![97u8] + be32(peer)
                        &&& *final(self) == (Connection {
                            channels: final(self).channels,
                            tx_queue: final(self).tx_queue,
                            ..*old(self)
                        })
                    })
                },
                Err(e) => {
                    &&& e == ConnectionError::ProtocolError
                    &&& !has_channel(old(self).channels@, id)
                    &&& *final(self) == *old(self)
                },
            },
    {
        let idx = match self.find_channel(id) {
            Some(i) => i,
            None => { return Err(ConnectionError::ProtocolError) },
        };
        let peer_id = self.channels[idx].peer_id();
        self.channels.remove(idx);
        proof {
            assert(self.channels@ =~= old(self).channels@.remove(idx as int));
            assert(forall|i: int, j: int|
                0 <= i < j < self.channels@.len() ==> (#[trigger] self.channels@[i]).id < (
                #[trigger] self.channels@[j]).id) by {
                assert(forall|i: int|
                    0 <= i < self.channels@.len() ==> (#[trigger] self.channels@[i]) == if i
                        < idx as int {
                        old(self).channels@[i]
                    } else {
                        old(self).channels@[i + 1]
                    });
            }
        }
        let mut eof = Packet::new(MessageType::ChannelEOF);
        match &mut eof {
            Packet::Payload(pp) => {
                codec::write_uint32(pp, peer_id);
            },
            Packet::Raw(_, _) => {},
        }
        assert(eof.spec_payload() =~= seq![96u8] + be32(peer_id));
        let mut close = Packet::new(MessageType::ChannelClose);
        match &mut close {
            Packet::Payload(pp) => {
                codec::write_uint32(pp, peer_id);
            },
            Packet::Raw(_, _) => {},
        }
        assert(close.spec_payload() =~= seq![97u8] + be32(peer_id));
        self.tx_queue.push(eof);
        self.tx_queue.push(close);
        proof {
            assert(self.tx_queue@.subrange(0, old(self).tx_queue@.len() as int) =~= old(
                self,
            ).tx_queue@);
            assert(forall|i: int|
                0 <= i < self.tx_queue@.len() ==> (#[trigger] self.tx_queue@[i]).wf());
        }
        Ok(())
    }

    /// Dispatch one received packet per the state machine: key exchange
    /// in its states, service and authentication once established, and
    /// channel traffic once authenticated; anything else, or anything in
    /// the wrong state, is a protocol error. Whatever the message, the
    /// sequence counters stay untouched, and a session id, once set,
    /// never changes.
    #[verifier::rlimit(100)]
    pub fn process(&mut self, packet: Packet) -> (r: Result<Option<Packet>, ConnectionError>)
        requires
            old(self).wf(),
            packet.wf(),
            old(self).hash_data.client_id is Some,
            old(self).hash_data.server_id is Some,
        ensures
            final(self).wf(),
            post_process(*old(self), *final(self), packet, r),
            final(self).seq == old(self).seq,
            old(self).session_id is Some ==> final(self).session_id == old(self).session_id,
    {
        match packet.msg_type() {
            MessageType::KexInit => {
                if self.state != ConnectionState::KeyExchange {
                    self.kex_init(&packet)
                } else {
                    Err(ConnectionError::ProtocolError)
                }
            },
            MessageType::NewKeys => {
                if self.state == ConnectionState::KeyExchange {
                    self.new_keys()
                } else {
                    Err(ConnectionError::ProtocolError)
                }
            },
            MessageType::KeyExchange(_) => {
                if self.state == ConnectionState::KeyExchange {
                    self.key_exchange(&packet)
                } else {
                    Err(ConnectionError::ProtocolError)
                }
            },
            MessageType::ServiceRequest => {
                if self.state == ConnectionState::Established {
                    self.service_request(&packet)
                } else {
                    Err(ConnectionError::ProtocolError)
                }
            },
            MessageType::UserAuthRequest => {
                if self.state == ConnectionState::Established && self.service_accepted {
                    self.user_auth_request(&packet)
                } else {
                    Err(ConnectionError::ProtocolError)
                }
            },
            MessageType::ChannelOpen => {
                if self.state == ConnectionState::Established && self.authenticated {
                    self.channel_open(&packet)
                } else {
                    Err(ConnectionError::ProtocolError)
                }
            },
            MessageType::ChannelRequest => {
                if self.state == ConnectionState::Established && self.authenticated {
                    self.channel_request(&packet)
                } else {
                    Err(ConnectionError::ProtocolError)
                }
            },
            MessageType::ChannelData => {
                if self.state == ConnectionState::Established && self.authenticated {
                    self.channel_data(&packet)
                } else {
                    Err(ConnectionError::ProtocolError)
                }
            },
            MessageType::ChannelWindowAdjust => {
                if self.state == ConnectionState::Established && self.authenticated {
                    self.channel_window_adjust(&packet)
                } else {
                    Err(ConnectionError::ProtocolError)
                }
            },
            MessageType::ChannelEOF => {
                if self.state == ConnectionState::Established && self.authenticated {
                    Ok(None)
                } else {
                    Err(ConnectionError::ProtocolError)
                }
            },
            MessageType::ChannelClose => {
                if self.state == ConnectionState::Established && self.authenticated {
                    self.channel_close(&packet)
                } else {
                    Err(ConnectionError::ProtocolError)
                }
            },
            _ => Err(ConnectionError::ProtocolError),
        }
    }
}

// ---------------------------------------------------------------------------
// The KEXINIT offer and its parsing
// ---------------------------------------------------------------------------

/// The server's preferred key-exchange algorithms.
pub open spec fn spec_kex_algs() -> Seq<KeyExchangeAlgorithm> {
    seq![KeyExchangeAlgorithm::CURVE25519_SHA256]
}

/// The server's preferred host-key algorithms.
pub open spec fn spec_host_algs() -> Seq<PublicKeyAlgorithm> {
    seq![PublicKeyAlgorithm::SSH_ED25519]
}

/// The server's preferred encryption algorithms.
pub open spec fn spec_enc_algs() -> Seq<EncryptionAlgorithm> {
    seq![EncryptionAlgorithm::AES256_CTR]
}

/// The server's preferred MAC algorithms.
pub open spec fn spec_mac_algs() -> Seq<MacAlgorithm> {
    seq![MacAlgorithm::HMAC_SHA2_256]
}

/// The server's preferred compression algorithms.
pub open spec fn spec_comp_algs() -> Seq<CompressionAlgorithm> {
    seq![CompressionAlgorithm::NoCompression]
}

/// The `n`-th name-list of a KEXINIT payload (counting from 0), with the
/// position after it; the first begins after the type byte and the 16-byte
/// cookie.
pub open spec fn spec_nth_list(p: Seq<u8>, n: nat) -> Option<(Seq<Seq<u8>>, int)>
    decreases n,
{
    if n == 0 {
        dec_name_list(p, 17)
    } else {
        match spec_nth_list(p, (n - 1) as nat) {
            Some(r) => dec_name_list(p, r.1),
            None => None,
        }
    }
}

/// Once one name-list of a KEXINIT is missing, so are all later ones.
proof fn lemma_nth_list_none(p: Seq<u8>, m: nat, n: nat)
    requires
        m <= n,
        spec_nth_list(p, m) is None,
    ensures
        spec_nth_list(p, n) is None,
    decreases n,
{
    if n > m {
        lemma_nth_list_none(p, m, (n - 1) as nat);
    }
}

/// Whether a KEXINIT payload parses: the cookie and all eight name-lists
/// are present.
pub open spec fn kexinit_parse_ok(p: Seq<u8>) -> bool {
    &&& p.len() >= 17
    &&& spec_nth_list(p, 7) is Some
}

/// The algorithms the client offered in the `n`-th list.
pub open spec fn spec_client_list<A: AlgorithmId>(p: Seq<u8>, n: nat) -> Seq<A>
    recommends
        spec_nth_list(p, n) is Some,
{
    algs_of_names::<A>(spec_nth_list(p, n).unwrap().0)
}

/// Whether every category negotiates: the kex and host-key lists, and the
/// server-to-client encryption, MAC and compression lists, each share a
/// name with the registry.
pub open spec fn kexinit_negotiation_ok(p: Seq<u8>) -> bool {
    &&& kexinit_parse_ok(p)
    &&& spec_negotiate(spec_kex_algs(), spec_client_list::<KeyExchangeAlgorithm>(p, 0)) is Some
    &&& spec_negotiate(spec_host_algs(), spec_client_list::<PublicKeyAlgorithm>(p, 1)) is Some
    &&& spec_negotiate(spec_enc_algs(), spec_client_list::<EncryptionAlgorithm>(p, 3)) is Some
    &&& spec_negotiate(spec_mac_algs(), spec_client_list::<MacAlgorithm>(p, 5)) is Some
    &&& spec_negotiate(spec_comp_algs(), spec_client_list::<CompressionAlgorithm>(p, 7)) is Some
}

/// The payload of the server's KEXINIT for a given cookie: the type byte,
/// the cookie, the five preference lists (the directional ones twice),
/// two empty language lists, first-kex-packet-follows false, and the
/// reserved word.
pub open spec fn spec_server_kexinit(cookie: Seq<u8>) -> Seq<u8> {
    seq![20u8] + cookie + enc_name_list(algorithm::names_of_algs(spec_kex_algs()))
        + enc_name_list(algorithm::names_of_algs(spec_host_algs())) + enc_name_list(
        algorithm::names_of_algs(spec_enc_algs()),
    ) + enc_name_list(algorithm::names_of_algs(spec_enc_algs())) + enc_name_list(
        algorithm::names_of_algs(spec_mac_algs()),
    ) + enc_name_list(algorithm::names_of_algs(spec_mac_algs())) + enc_name_list(
        algorithm::names_of_algs(spec_comp_algs()),
    ) + enc_name_list(algorithm::names_of_algs(spec_comp_algs())) + be32(0) + be32(0) + enc_bool(
        false,
    ) + be32(0)
}

/// Build the server's KEXINIT around a 16-byte cookie.
#[verifier::rlimit(50)]
pub fn build_kexinit(cookie: Vec<u8>) -> (r: Packet)
    requires
        cookie@.len() == 16,
    ensures
        r.wf(),
        r is Payload,
        r.spec_payload() == spec_server_kexinit(cookie@),
{
    let kex_list = algorithm::key_exchange_algorithms();
    let host_list = algorithm::host_key_algorithms();
    let enc_list = algorithm::encryption_algorithms();
    let mac_list = algorithm::mac_algorithms();
    let comp_list = algorithm::compression_algorithms();
    let kex_names = algorithm::algorithm_names(kex_list.as_slice());
    let host_names = algorithm::algorithm_names(host_list.as_slice());
    let enc_names = algorithm::algorithm_names(enc_list.as_slice());
    let mac_names = algorithm::algorithm_names(mac_list.as_slice());
    let comp_names = algorithm::algorithm_names(comp_list.as_slice());
    let mut packet = Packet::new(MessageType::KexInit);
    match &mut packet {
        Packet::Payload(p) => {
            codec::write_raw_bytes(p, cookie.as_slice());
            codec::write_name_list(p, &kex_names);
            codec::write_name_list(p, &host_names);
            codec::write_name_list(p, &enc_names);
            codec::write_name_list(p, &enc_names);
            codec::write_name_list(p, &mac_names);
            codec::write_name_list(p, &mac_names);
            codec::write_name_list(p, &comp_names);
            codec::write_name_list(p, &comp_names);
            codec::write_uint32(p, 0);
            codec::write_uint32(p, 0);
            codec::write_bool(p, false);
            codec::write_uint32(p, 0);
        },
        Packet::Raw(_, _) => {},
    }
    proof {
        algorithm::lemma_registry_name_lens();
        assert(algorithm::names_of_algs(spec_kex_algs()) =~= seq![
            KeyExchangeAlgorithm::CURVE25519_SHA256.spec_name(),
        ]);
        assert(algorithm::names_of_algs(spec_host_algs()) =~= seq![
            PublicKeyAlgorithm::SSH_ED25519.spec_name(),
        ]);
        assert(algorithm::names_of_algs(spec_enc_algs()) =~= seq![
            EncryptionAlgorithm::AES256_CTR.spec_name(),
        ]);
        assert(algorithm::names_of_algs(spec_mac_algs()) =~= seq![
            MacAlgorithm::HMAC_SHA2_256.spec_name(),
        ]);
        assert(algorithm::names_of_algs(spec_comp_algs()) =~= seq![
            CompressionAlgorithm::NoCompression.spec_name(),
        ]);
        assert(packet.spec_payload() =~= spec_server_kexinit(cookie@));
    }
    packet
}

/// One direction's derived key: `SHA256(K || H || label || session_id)`.
fn derive_key(k: &Vec<u8>, h: &Vec<u8>, label: u8, session_id: &Vec<u8>) -> (r: Vec<u8>)
    ensures
        r@ == spec_derived_key(k@, h@, label, session_id@),
        r@.len() == 32,
{
    let mut input: Vec<u8> = Vec::new();
    codec::write_raw_bytes(&mut input, k.as_slice());
    codec::write_raw_bytes(&mut input, h.as_slice());
    codec::write_byte(&mut input, label);
    codec::write_raw_bytes(&mut input, session_id.as_slice());
    assert(input@ =~= k@ + h@ + seq![label] + session_id@);
    crate::primitives::sha256(input.as_slice())
}

/// What handling a KEXINIT guarantees: a protocol error on a payload that
/// does not parse, a negotiation error when a category has no common name,
/// and otherwise the captured payloads, the fresh exchange state and a
/// server KEXINIT whose cookie was drawn for this round.
pub open spec fn post_kex_init(
    pre: Connection,
    post: Connection,
    payload: Seq<u8>,
    r: Result<Option<Packet>, ConnectionError>,
) -> bool {
    match r {
        Ok(opt) => {
            &&& kexinit_negotiation_ok(payload)
            &&& opt matches Some(resp)
            &&& resp.wf()
            &&& (exists|cookie: Seq<u8>|
                cookie.len() == 16 && resp.spec_payload() == spec_server_kexinit(cookie))
            &&& post == (Connection {
                hash_data: post.hash_data,
                state: ConnectionState::KeyExchange,
                key_exchange: post.key_exchange,
                ..pre
            })
            &&& post.hash_data == (HashData {
                client_kexinit: Some(post.hash_data.client_kexinit.unwrap()),
                server_kexinit: Some(post.hash_data.server_kexinit.unwrap()),
                ..pre.hash_data
            })
            &&& post.hash_data.client_kexinit.unwrap()@ == payload
            &&& post.hash_data.server_kexinit.unwrap()@ == resp.spec_payload()
            &&& post.key_exchange matches Some(kex) && kex.spec_shared_secret() is None
                && kex.spec_exchange_hash() is None
        },
        Err(e) => {
            &&& post == pre
            &&& (e == ConnectionError::ProtocolError || e == ConnectionError::NegotiationError)
            &&& (e == ConnectionError::ProtocolError <==> !kexinit_parse_ok(payload))
            &&& (e == ConnectionError::NegotiationError ==> !kexinit_negotiation_ok(payload))
        },
    }
}

/// What one key-exchange step guarantees: an error leaves everything as
/// it was; a completed step stores the exchange hash and shared secret
/// for some scalar of this round, queues the server's NEWKEYS, and fixes
/// the session id to the first exchange hash.
pub open spec fn post_kex_step(
    pre: Connection,
    post: Connection,
    packet: Packet,
    r: Result<Option<Packet>, ConnectionError>,
) -> bool {
    match r {
        Ok(opt) => {
            &&& opt matches Some(reply)
            &&& pre.key_exchange matches Some(kex0)
            &&& post.key_exchange matches Some(kex1)
            &&& (exists|secret: Seq<u8>|
                secret.len() == 32 && #[trigger] crate::kex::kex_step_ok(
                    kex0,
                    kex1,
                    pre.hash_data,
                    pre.spec_config().key,
                    packet,
                    secret,
                    reply,
                ))
            &&& post.session_id == (if pre.session_id is Some {
                pre.session_id
            } else {
                Some(post.session_id.unwrap())
            })
            &&& (pre.session_id is None ==> post.session_id.unwrap()@
                == kex1.spec_exchange_hash().unwrap())
            &&& post.tx_queue@.len() == pre.tx_queue@.len() + 1
            &&& post.tx_queue@.drop_last() == pre.tx_queue@
            &&& post.tx_queue@.last().wf()
            &&& post.tx_queue@.last().spec_payload() == seq![21u8]
            &&& post.pending_out matches Some(pair)
            &&& ({
                let k = kex1.spec_shared_secret().unwrap();
                let h = kex1.spec_exchange_hash().unwrap();
                let sid = post.session_id.unwrap()@;
                &&& pair.0.spec_key() == spec_derived_key(k, h, 68, sid)
                &&& pair.0.spec_iv() == spec_derived_key(k, h, 66, sid).subrange(0, 16)
                &&& pair.0.spec_offset() == 0
                &&& pair.1@ == spec_derived_key(k, h, 70, sid)
            })
            &&& post == (Connection {
                key_exchange: post.key_exchange,
                session_id: post.session_id,
                tx_queue: post.tx_queue,
                pending_out: post.pending_out,
                ..pre
            })
        },
        Err(e) => {
            &&& e == ConnectionError::KeyExchangeError
            &&& post == pre
            &&& (pre.key_exchange is Some ==> !crate::kex::ecdh_init_accepted(packet))
        },
    }
}

/// Session-id persistence: on a connection that had no session id, a
/// completed key exchange fixes it to that round's exchange hash, and a
/// second completed exchange (a rekey) leaves it at the first hash.
pub proof fn lemma_session_id_persistence(
    c0: Connection,
    c1: Connection,
    c2: Connection,
    p1: Packet,
    p2: Packet,
    r1: Result<Option<Packet>, ConnectionError>,
    r2: Result<Option<Packet>, ConnectionError>,
)
    requires
        c0.session_id is None,
        post_kex_step(c0, c1, p1, r1),
        r1 is Ok,
        post_kex_step(c1, c2, p2, r2),
        r2 is Ok,
    ensures
        c1.session_id matches Some(sid) && sid@
            == c1.key_exchange.unwrap().spec_exchange_hash().unwrap(),
        c2.session_id == c1.session_id,
{
}

/// What handling the client's NEWKEYS guarantees: with the exchange
/// complete, the cipher and MAC pairs are installed together, keyed per
/// label from `K`, `H` and the session id, the exchange state is
/// destroyed, the connection is established, and the sequence numbers and
/// session id are untouched; without a completed exchange nothing
/// changes.
pub open spec fn post_new_keys(
    pre: Connection,
    post: Connection,
    r: Result<Option<Packet>, ConnectionError>,
) -> bool {
    match r {
        Ok(opt) => {
            &&& opt is None
            &&& pre.key_exchange matches Some(kex)
            &&& kex.spec_shared_secret() matches Some(k)
            &&& kex.spec_exchange_hash() matches Some(h)
            &&& pre.session_id matches Some(sid)
            &&& post.keys_in matches Some(pair)
            &&& pair.0.spec_key() == spec_derived_key(k, h, 67, sid@)
            &&& pair.0.spec_iv() == spec_derived_key(k, h, 65, sid@).subrange(0, 16)
            &&& pair.0.spec_offset() == 0
            &&& pair.1@ == spec_derived_key(k, h, 69, sid@)
            &&& post == (Connection {
                state: ConnectionState::Established,
                key_exchange: None,
                keys_in: post.keys_in,
                ..pre
            })
        },
        Err(e) => {
            &&& e == ConnectionError::KeyGenerationError
            &&& post == pre
            &&& (pre.key_exchange is None || pre.key_exchange.unwrap().spec_shared_secret()
                is None || pre.key_exchange.unwrap().spec_exchange_hash() is None
                || pre.session_id is None)
        },
    }
}

// ---------------------------------------------------------------------------
// Service, authentication and channels
// ---------------------------------------------------------------------------

/// The byte lengths of the service and method names the server writes.
proof fn lemma_auth_literal_lens()
    ensures
        "ssh-userauth".spec_bytes().len() == 12,
        "password".spec_bytes().len() == 8,
{
    reveal_strlit("ssh-userauth");
    assert(vstd::utf8::is_ascii_chars("ssh-userauth"@));
    vstd::utf8::is_ascii_chars_encode_utf8("ssh-userauth"@);
    reveal_strlit("password");
    assert(vstd::utf8::is_ascii_chars("password"@));
    vstd::utf8::is_ascii_chars_encode_utf8("password"@);
}

/// Whether a channel with this local id is in the table.
pub open spec fn has_channel(channels: Seq<Channel>, id: u32) -> bool {
    exists|i: int| 0 <= i < channels.len() && channels[i].id == id
}

/// The index of the channel with this local id.
pub open spec fn channel_at(channels: Seq<Channel>, id: u32) -> int {
    choose|i: int| 0 <= i < channels.len() && channels[i].id == id
}

/// What answering a SERVICE_REQUEST guarantees: `ssh-userauth` is
/// accepted and echoed, anything else is fatal.
pub open spec fn post_service_request(
    pre: Connection,
    post: Connection,
    payload: Seq<u8>,
    r: Result<Option<Packet>, ConnectionError>,
) -> bool {
    match r {
        Ok(opt) => {
            &&& opt matches Some(resp)
            &&& dec_string(payload, 1) matches Some((name, _))
            &&& name == "ssh-userauth".spec_bytes()
            &&& resp.wf()
            &&& resp.spec_payload() == seq![6u8] + enc_string(name)
            &&& post == (Connection { service_accepted: true, ..pre })
        },
        Err(e) => {
            &&& e == ConnectionError::ProtocolError
            &&& post == pre
            &&& !(dec_string(payload, 1) matches Some((name, _)) && name
                == "ssh-userauth".spec_bytes())
        },
    }
}

/// What a USERAUTH_REQUEST decides: nothing on a malformed request (or a
/// password-change request, which this server does not take), and
/// otherwise whether the password method was named and the configured
/// password matched.
pub open spec fn spec_auth_decision(payload: Seq<u8>, password: Seq<u8>) -> Option<bool> {
    match dec_string(payload, 1) {
        Some((_user, q1)) => match dec_string(payload, q1) {
            Some((_service, q2)) => match dec_string(payload, q2) {
                Some((method, q3)) => if method == "password".spec_bytes() {
                    match dec_bool(payload, q3) {
                        Some((change, q4)) => if change {
                            None
                        } else {
                            match dec_string(payload, q4) {
                                Some((pass, _)) => Some(pass == password),
                                None => None,
                            }
                        },
                        None => None,
                    }
                } else {
                    Some(false)
                },
                None => None,
            },
            None => None,
        },
        None => None,
    }
}

/// What answering a USERAUTH_REQUEST guarantees: success marks the
/// connection authenticated and says so; failure answers with the
/// `password` method left to try; a malformed request is fatal.
pub open spec fn post_user_auth(
    pre: Connection,
    post: Connection,
    payload: Seq<u8>,
    r: Result<Option<Packet>, ConnectionError>,
) -> bool {
    match r {
        Ok(opt) => {
            &&& opt matches Some(resp)
            &&& resp.wf()
            &&& spec_auth_decision(payload, pre.spec_config().password@) matches Some(success)
            &&& if success {
                &&& post == (Connection { authenticated: true, ..pre })
                &&& resp.spec_payload() == seq![52u8]
            } else {
                &&& post == pre
                &&& resp.spec_payload() == seq![51u8] + enc_string("password".spec_bytes())
                    + enc_bool(false)
            }
        },
        Err(e) => {
            &&& e == ConnectionError::ProtocolError
            &&& post == pre
            &&& spec_auth_decision(payload, pre.spec_config().password@) is None
        },
    }
}

/// The CHANNEL_OPEN fields: type, sender id, initial window, maximum
/// packet size.
pub open spec fn spec_open_fields(payload: Seq<u8>) -> Option<(Seq<u8>, u32, u32, u32)> {
    match dec_string(payload, 1) {
        Some((ctype, q1)) => match dec_uint32(payload, q1) {
            Some((peer, q2)) => match dec_uint32(payload, q2) {
                Some((window, q3)) => match dec_uint32(payload, q3) {
                    Some((maxp, _)) => Some((ctype, peer, window, maxp)),
                    None => None,
                },
                None => None,
            },
            None => None,
        },
        None => None,
    }
}

/// The next local channel id: one past the highest in use.
pub open spec fn spec_next_id(channels: Seq<Channel>) -> u32 {
    if channels.len() == 0 {
        0u32
    } else {
        (channels.last().id + 1) as u32
    }
}

/// What answering a CHANNEL_OPEN guarantees: a `session` open allocates
/// the next id, adds the channel with the windows the client asked for,
/// and confirms them back; another type is refused with an open failure;
/// a malformed request (or an exhausted id space) is fatal.
pub open spec fn post_channel_open(
    pre: Connection,
    post: Connection,
    payload: Seq<u8>,
    r: Result<Option<Packet>, ConnectionError>,
) -> bool {
    match r {
        Ok(opt) => {
            &&& opt matches Some(resp)
            &&& resp.wf()
            &&& spec_open_fields(payload) matches Some((ctype, peer, window, maxp))
            &&& if ctype == "session".spec_bytes() {
                let id = spec_next_id(pre.channels@);
                &&& pre.channels@.len() > 0 ==> pre.channels@.last().id < u32::MAX
                &&& post == (Connection { channels: post.channels, ..pre })
                &&& post.channels@ == pre.channels@.push(
                    Channel {
                        id,
                        peer_id: peer,
                        window_size: window,
                        initial_window_size: window,
                        peer_window_size: window,
                        max_packet_size: maxp,
                    },
                )
                &&& resp.spec_payload() == seq![91u8] + be32(peer) + be32(id) + be32(window)
                    + be32(maxp)
            } else {
                &&& post == pre
                &&& resp.spec_payload() == seq![92u8] + be32(peer) + be32(3) + be32(0) + be32(0)
            }
        },
        Err(e) => {
            &&& e == ConnectionError::ProtocolError
            &&& post == pre
            &&& (spec_open_fields(payload) is None || (spec_open_fields(payload).unwrap().0
                == "session".spec_bytes() && pre.channels@.len() > 0 && pre.channels@.last().id
                == u32::MAX))
        },
    }
}

/// The CHANNEL_REQUEST header: recipient, request name, want-reply.
pub open spec fn spec_request_fields(payload: Seq<u8>) -> Option<(u32, Seq<u8>, bool, int)> {
    match dec_uint32(payload, 1) {
        Some((recipient, q1)) => match dec_string(payload, q1) {
            Some((name, q2)) => match dec_bool(payload, q2) {
                Some((want, q3)) => Some((recipient, name, want, q3)),
                None => None,
            },
            None => None,
        },
        None => None,
    }
}

/// The `pty-req` fields after the header: terminal name, the four
/// geometry words, and the encoded terminal modes.
pub open spec fn spec_pty_fields(payload: Seq<u8>, from: int) -> Option<(
    Seq<u8>,
    u32,
    u32,
    u32,
    u32,
    Seq<u8>,
)> {
    match dec_string(payload, from) {
        Some((term, q1)) => match dec_uint32(payload, q1) {
            Some((chars, q2)) => match dec_uint32(payload, q2) {
                Some((rows, q3)) => match dec_uint32(payload, q3) {
                    Some((pw, q4)) => match dec_uint32(payload, q4) {
                        Some((ph, q5)) => match dec_string(payload, q5) {
                            Some((modes, _)) => Some((term, chars, rows, pw, ph, modes)),
                            None => None,
                        },
                        None => None,
                    },
                    None => None,
                },
                None => None,
            },
            None => None,
        },
        None => None,
    }
}

/// What answering a CHANNEL_REQUEST guarantees: a `pty-req` or `shell` on
/// a known channel queues the terminal work and is confirmed when a reply
/// is wanted; an unknown request is answered with a failure; an unknown
/// channel is ignored; a malformed request is fatal.
pub open spec fn post_channel_request(
    pre: Connection,
    post: Connection,
    payload: Seq<u8>,
    r: Result<Option<Packet>, ConnectionError>,
) -> bool {
    match r {
        Ok(opt) => {
            &&& spec_request_fields(payload) matches Some((recipient, name, want, q3))
            &&& if !has_channel(pre.channels@, recipient) {
                &&& post == pre
                &&& opt is None
            } else {
                let ch = pre.channels@[channel_at(pre.channels@, recipient)];
                let known = name == "pty-req".spec_bytes() || name == "shell".spec_bytes();
                &&& if name == "pty-req".spec_bytes() {
                    &&& spec_pty_fields(payload, q3) matches Some((term, chars, rows, pw, ph, modes))
                    &&& post == (Connection { actions: post.actions, ..pre })
                    &&& post.actions@.len() == pre.actions@.len() + 1
                    &&& post.actions@.drop_last() == pre.actions@
                    &&& (post.actions@.last() matches ChannelAction::OpenPty {
                        channel: c,
                        term: t,
                        chars: cc,
                        rows: rr,
                        pixel_width: pww,
                        pixel_height: phh,
                        modes: m,
                    } && c == recipient && t@ == term && cc == chars as u16 && rr == rows as u16
                        && pww == pw as u16 && phh == ph as u16 && m@ == modes)
                } else if name == "shell".spec_bytes() {
                    &&& post == (Connection { actions: post.actions, ..pre })
                    &&& post.actions@ == pre.actions@.push(
                        ChannelAction::SpawnShell { channel: recipient },
                    )
                } else {
                    post == pre
                }
                &&& if want {
                    opt matches Some(resp) && resp.wf() && resp.spec_payload() == seq![
                        if known {
                            99u8
                        } else {
                            100u8
                        },
                    ] + be32(ch.peer_id)
                } else {
                    opt is None
                }
            }
        },
        Err(e) => {
            &&& e == ConnectionError::ProtocolError
            &&& post == pre
            &&& (spec_request_fields(payload) is None || (spec_request_fields(
                payload,
            ) matches Some((recipient, name, _want, q3)) && has_channel(pre.channels@, recipient)
                && name == "pty-req".spec_bytes() && spec_pty_fields(payload, q3) is None))
        },
    }
}

/// What CHANNEL_DATA guarantees: the bytes go verbatim to the channel's
/// terminal, the local window shrinks by their number, and when it falls
/// below half the initial window a WINDOW_ADJUST topping it back up is
/// queued. Data for an unknown channel, beyond the window, or malformed
/// is fatal.
pub open spec fn post_channel_data(
    pre: Connection,
    post: Connection,
    payload: Seq<u8>,
    r: Result<Option<Packet>, ConnectionError>,
) -> bool {
    match r {
        Ok(opt) => {
            &&& opt is None
            &&& dec_uint32(payload, 1) matches Some((recipient, q1))
            &&& dec_string(payload, q1) matches Some((data, _))
            &&& has_channel(pre.channels@, recipient)
            &&& ({
                let i = channel_at(pre.channels@, recipient);
                let ch = pre.channels@[i];
                let topped = ch.window_size - data.len() < ch.initial_window_size / 2;
                &&& data.len() <= ch.window_size
                &&& post.channels@ == pre.channels@.update(
                    i,
                    Channel {
                        window_size: if topped {
                            ch.initial_window_size
                        } else {
                            (ch.window_size - data.len()) as u32
                        },
                        ..ch
                    },
                )
                &&& post.actions@.len() == pre.actions@.len() + 1
                &&& post.actions@.drop_last() == pre.actions@
                &&& post.actions@.last() matches ChannelAction::WriteData { channel, data: d }
                    && channel == recipient && d@ == data
                &&& if topped {
                    let adjust = ch.initial_window_size - (ch.window_size - data.len());
                    &&& post.tx_queue@.len() == pre.tx_queue@.len() + 1
                    &&& post.tx_queue@.drop_last() == pre.tx_queue@
                    &&& post.tx_queue@.last().wf()
                    &&& post.tx_queue@.last().spec_payload() == seq![93u8] + be32(ch.peer_id)
                        + be32(adjust as u32)
                } else {
                    post.tx_queue == pre.tx_queue
                }
                &&& post == (Connection {
                    channels: post.channels,
                    actions: post.actions,
                    tx_queue: post.tx_queue,
                    ..pre
                })
            })
        },
        Err(e) => {
            &&& e == ConnectionError::ProtocolError
            &&& post == pre
            &&& (dec_uint32(payload, 1) is None || (dec_uint32(payload, 1) matches Some(
                (recipient, q1),
            ) && (dec_string(payload, q1) is None || (dec_string(payload, q1) matches Some(
                (data, _),
            ) && (!has_channel(pre.channels@, recipient) || data.len() > pre.channels@[channel_at(
                pre.channels@,
                recipient,
            )].window_size)))))
        },
    }
}

/// What a WINDOW_ADJUST guarantees: the peer's window grows by the given
/// amount, saturating; an unknown channel or malformed message is fatal.
pub open spec fn post_window_adjust(
    pre: Connection,
    post: Connection,
    payload: Seq<u8>,
    r: Result<Option<Packet>, ConnectionError>,
) -> bool {
    match r {
        Ok(opt) => {
            &&& opt is None
            &&& dec_uint32(payload, 1) matches Some((recipient, q1))
            &&& dec_uint32(payload, q1) matches Some((amount, _))
            &&& has_channel(pre.channels@, recipient)
            &&& ({
                let i = channel_at(pre.channels@, recipient);
                let ch = pre.channels@[i];
                &&& post.channels@ == pre.channels@.update(
                    i,
                    Channel {
                        peer_window_size: if ch.peer_window_size + amount <= u32::MAX {
                            (ch.peer_window_size + amount) as u32
                        } else {
                            u32::MAX
                        },
                        ..ch
                    },
                )
                &&& post == (Connection { channels: post.channels, ..pre })
            })
        },
        Err(e) => {
            &&& e == ConnectionError::ProtocolError
            &&& post == pre
            &&& (dec_uint32(payload, 1) is None || (dec_uint32(payload, 1) matches Some(
                (recipient, q1),
            ) && (dec_uint32(payload, q1) is None || !has_channel(pre.channels@, recipient))))
        },
    }
}

/// The largest CHANNEL_DATA chunk towards the peer: bounded by the data
/// itself, the peer's packet bound, the peer's window, and this library's
/// frame bound.
pub open spec fn spec_chunk(data_len: int, max_packet: u32, window: u32) -> int {
    let a = if data_len <= max_packet { data_len } else { max_packet as int };
    let b = if a <= window { a } else { window as int };
    if b <= 32000 { b } else { 32000 }
}

/// What queueing terminal output guarantees: one CHANNEL_DATA carrying
/// exactly the first `spec_chunk` bytes is queued and the peer window
/// shrinks by that many; nothing happens when the chunk is empty; an
/// unknown channel is an error.
pub open spec fn post_channel_output(
    pre: Connection,
    post: Connection,
    id: u32,
    data: Seq<u8>,
    r: Result<usize, ConnectionError>,
) -> bool {
    match r {
        Ok(n) => {
            &&& has_channel(pre.channels@, id)
            &&& ({
                let i = channel_at(pre.channels@, id);
                let ch = pre.channels@[i];
                let chunk = spec_chunk(data.len() as int, ch.max_packet_size, ch.peer_window_size);
                &&& n == chunk
                &&& if chunk == 0 {
                    post == pre
                } else {
                    &&& post.channels@ == pre.channels@.update(
                        i,
                        Channel { peer_window_size: (ch.peer_window_size - chunk) as u32, ..ch },
                    )
                    &&& post.tx_queue@.len() == pre.tx_queue@.len() + 1
                    &&& post.tx_queue@.drop_last() == pre.tx_queue@
                    &&& post.tx_queue@.last().wf()
                    &&& post.tx_queue@.last().spec_payload() == seq![94u8] + be32(ch.peer_id)
                        + crate::codec::enc_string(data.subrange(0, chunk))
                    &&& post == (Connection {
                        channels: post.channels,
                        tx_queue: post.tx_queue,
                        ..pre
                    })
                }
            })
        },
        Err(e) => {
            &&& e == ConnectionError::ProtocolError
            &&& !has_channel(pre.channels@, id)
            &&& post == pre
        },
    }
}

/// What processing one packet guarantees: the handler for its type and
/// the connection's state applies, and everything in the wrong state, or
/// of an unconsumed type, is a protocol error that changes nothing.
pub open spec fn post_process(
    pre: Connection,
    post: Connection,
    packet: Packet,
    r: Result<Option<Packet>, ConnectionError>,
) -> bool {
    let t = packet.spec_msg_type();
    let pl = packet.spec_payload();
    let refused = r == Result::<Option<Packet>, ConnectionError>::Err(
        ConnectionError::ProtocolError,
    ) && post == pre;
    if t == MessageType::KexInit {
        if pre.state != ConnectionState::KeyExchange {
            post_kex_init(pre, post, pl, r)
        } else {
            refused
        }
    } else if t == MessageType::NewKeys {
        if pre.state == ConnectionState::KeyExchange {
            post_new_keys(pre, post, r)
        } else {
            refused
        }
    } else if t matches MessageType::KeyExchange(_) {
        if pre.state == ConnectionState::KeyExchange {
            post_kex_step(pre, post, packet, r)
        } else {
            refused
        }
    } else if t == MessageType::ServiceRequest {
        if pre.state == ConnectionState::Established {
            post_service_request(pre, post, pl, r)
        } else {
            refused
        }
    } else if t == MessageType::UserAuthRequest {
        if pre.state == ConnectionState::Established && pre.service_accepted {
            post_user_auth(pre, post, pl, r)
        } else {
            refused
        }
    } else if t == MessageType::ChannelOpen {
        if pre.state == ConnectionState::Established && pre.authenticated {
            post_channel_open(pre, post, pl, r)
        } else {
            refused
        }
    } else if t == MessageType::ChannelRequest {
        if pre.state == ConnectionState::Established && pre.authenticated {
            post_channel_request(pre, post, pl, r)
        } else {
            refused
        }
    } else if t == MessageType::ChannelData {
        if pre.state == ConnectionState::Established && pre.authenticated {
            post_channel_data(pre, post, pl, r)
        } else {
            refused
        }
    } else if t == MessageType::ChannelWindowAdjust {
        if pre.state == ConnectionState::Established && pre.authenticated {
            post_window_adjust(pre, post, pl, r)
        } else {
            refused
        }
    } else if t == MessageType::ChannelEOF {
        if pre.state == ConnectionState::Established && pre.authenticated {
            r == Result::<Option<Packet>, ConnectionError>::Ok(None) && post == pre
        } else {
            refused
        }
    } else if t == MessageType::ChannelClose {
        if pre.state == ConnectionState::Established && pre.authenticated {
            post_channel_close(pre, post, pl, r)
        } else {
            refused
        }
    } else {
        refused
    }
}

/// What a peer CHANNEL_CLOSE guarantees: the channel leaves the table and
/// the server answers with its own CHANNEL_CLOSE; an unknown channel or a
/// malformed message is fatal.
pub open spec fn post_channel_close(
    pre: Connection,
    post: Connection,
    payload: Seq<u8>,
    r: Result<Option<Packet>, ConnectionError>,
) -> bool {
    match r {
        Ok(opt) => {
            &&& opt matches Some(resp)
            &&& dec_uint32(payload, 1) matches Some((recipient, _))
            &&& has_channel(pre.channels@, recipient)
            &&& ({
                let i = channel_at(pre.channels@, recipient);
                &&& post.channels@ == pre.channels@.remove(i)
                &&& post == (Connection { channels: post.channels, ..pre })
                &&& resp.wf()
                &&& resp.spec_payload() == seq![97u8] + be32(pre.channels@[i].peer_id)
            })
        },
        Err(e) => {
            &&& e == ConnectionError::ProtocolError
            &&& post == pre
            &&& (dec_uint32(payload, 1) is None || !has_channel(
                pre.channels@,
                dec_uint32(payload, 1).unwrap().0,
            ))
        },
    }
}

} // verus!
