//! End-to-end sessions against a scripted client: banner exchange, key
//! exchange, authentication, channels, integrity rejection and rekey.

use crypto::digest::Digest;
use crypto::mac::Mac;
use crypto::symmetriccipher::SynchronousStreamCipher;

use ssh::channel::ChannelId;
use ssh::codec;
use ssh::connection::{ChannelAction, Connection, ConnectionType};
use ssh::error::ConnectionError;
use ssh::packet::Packet;
use ssh::public_key::Ed25519KeyPair;
use ssh::server::ServerConfig;

fn sha256_parts(parts: &[&[u8]]) -> Vec<u8> {
    let mut hasher = crypto::sha2::Sha256::new();
    for part in parts {
        hasher.input(part);
    }
    let mut out = [0u8; 32];
    hasher.result(&mut out);
    out.to_vec()
}

fn hmac_parts(key: &[u8], parts: &[&[u8]]) -> Vec<u8> {
    let mut mac = crypto::hmac::Hmac::new(crypto::sha2::Sha256::new(), key);
    for part in parts {
        mac.input(part);
    }
    let mut out = [0u8; 32];
    mac.raw_result(&mut out);
    out.to_vec()
}

fn clamp(mut s: [u8; 32]) -> [u8; 32] {
    s[0] &= 248;
    s[31] &= 127;
    s[31] |= 64;
    s
}

fn frame(payload: Vec<u8>) -> Vec<u8> {
    Packet::Payload(payload).to_raw().data().clone()
}

fn client_kexinit_payload() -> Vec<u8> {
    let mut p = vec![20u8];
    p.extend_from_slice(&[0xAA; 16]);
    for list in [
        &b"curve25519-sha256,ext-info-c"[..],
        b"ssh-ed25519",
        b"aes256-ctr",
        b"aes256-ctr",
        b"hmac-sha2-256",
        b"hmac-sha2-256",
        b"none",
        b"none",
    ] {
        codec::write_bytes(&mut p, list);
    }
    codec::write_bytes(&mut p, b"");
    codec::write_bytes(&mut p, b"");
    codec::write_bool(&mut p, false);
    codec::write_uint32(&mut p, 0);
    p
}

fn new_server(password: &[u8]) -> Connection {
    let config = ServerConfig {
        host: String::from("127.0.0.1"),
        port: 22,
        key: Ed25519KeyPair::from_seed(&[9u8; 32]),
        password: password.to_vec(),
    };
    Connection::new(ConnectionType::Server(config))
}

/// The client's half of the transport once keys are installed.
struct Client {
    enc: Box<dyn SynchronousStreamCipher>,
    dec: Box<dyn SynchronousStreamCipher>,
    mac_c2s: Vec<u8>,
    mac_s2c: Vec<u8>,
    seq_out: u32,
    seq_in: u32,
    session_id: Vec<u8>,
}

/// Feed one plaintext-phase client payload to the server.
fn plain_send(conn: &mut Connection, payload: Vec<u8>) -> Result<Option<Packet>, ConnectionError> {
    let raw = frame(payload);
    let packet = conn.accept_frame(raw, &[])?;
    conn.process(packet)
}

/// Feed one encrypted client payload to the server.
fn client_send(
    conn: &mut Connection,
    client: &mut Client,
    payload: Vec<u8>,
) -> Result<Option<Packet>, ConnectionError> {
    let raw = frame(payload);
    let tag = hmac_parts(&client.mac_c2s, &[&client.seq_out.to_be_bytes(), &raw]);
    let mut ciphertext = vec![0u8; raw.len()];
    client.enc.process(&raw, &mut ciphertext);
    client.seq_out = client.seq_out.wrapping_add(1);
    let clear = conn.decrypt_incoming(ciphertext);
    assert_eq!(clear, raw, "client and server ciphers disagree");
    let packet = conn.accept_frame(clear, &tag)?;
    conn.process(packet)
}

/// Take one encrypted server packet off the wire and give its payload.
fn client_recv(conn: &mut Connection, client: &mut Client, packet: Packet) -> Vec<u8> {
    let wire = conn.send_packet(packet);
    let split = wire.len() - 32;
    let mut clear = vec![0u8; split];
    client.dec.process(&wire[..split], &mut clear);
    let expected = hmac_parts(&client.mac_s2c, &[&client.seq_in.to_be_bytes(), &clear]);
    assert_eq!(&wire[split..], &expected[..], "server MAC mismatch");
    client.seq_in = client.seq_in.wrapping_add(1);
    Packet::read_from(clear).unwrap().payload()
}

/// Run banner exchange, key exchange and NEWKEYS; give back the server
/// connection and the client transport.
fn establish(password: &[u8]) -> (Connection, Client) {
    let mut conn = new_server(password);

    // Banner exchange: the server sends exactly its banner line, and
    // captures the first client line that begins with SSH-.
    let banner = conn.send_id();
    assert_eq!(banner, b"SSH-2.0-ssh_0.1.0\r\n".to_vec());
    conn.read_id(b"garbage\r\nSSH-2.0-ClientX\r\n").unwrap();
    assert_eq!(conn.hash_data.client_id.as_ref().unwrap(), &b"SSH-2.0-ClientX".to_vec());

    // KEXINIT both ways.
    let ck = client_kexinit_payload();
    let resp = plain_send(&mut conn, ck.clone()).unwrap().unwrap();
    let sk = resp.payload_of();
    assert_eq!(sk[0], 20);
    let (kex_names, _) = codec::read_name_list(&sk, 17).unwrap();
    assert_eq!(kex_names, vec![b"curve25519-sha256".to_vec()]);
    let _server_kexinit_wire = conn.send_packet(resp);

    // ECDH.
    let client_secret = clamp([0x44u8; 32]);
    let client_public = crypto::curve25519::curve25519_base(&client_secret);
    let mut ecdh = vec![30u8];
    codec::write_bytes(&mut ecdh, &client_public);
    let reply = plain_send(&mut conn, ecdh).unwrap().unwrap();
    let rp = reply.payload_of();
    assert_eq!(rp[0], 31);
    let (host_blob, p1) = codec::read_string(&rp, 1).unwrap();
    let (server_public, _) = codec::read_string(&rp, p1).unwrap();
    let _reply_wire = conn.send_packet(reply);
    let newkeys = conn.pop_tx().unwrap();
    assert_eq!(newkeys.payload_of(), vec![21u8]);
    let _newkeys_wire = conn.send_packet(newkeys);

    // The shared secret and exchange hash, computed on the client side.
    let shared = crypto::curve25519::curve25519(&client_secret, &server_public);
    let mut k_mpint = Vec::new();
    codec::write_mpint(&mut k_mpint, &shared);
    let mut input = Vec::new();
    codec::write_bytes(&mut input, b"SSH-2.0-ClientX");
    codec::write_bytes(&mut input, b"SSH-2.0-ssh_0.1.0");
    codec::write_bytes(&mut input, &ck);
    codec::write_bytes(&mut input, &sk);
    codec::write_bytes(&mut input, &host_blob);
    codec::write_bytes(&mut input, &client_public);
    codec::write_bytes(&mut input, &server_public);
    codec::write_raw_bytes(&mut input, &k_mpint);
    let hash = sha256_parts(&[&input]);

    // The client's NEWKEYS establishes the connection.
    assert!(plain_send(&mut conn, vec![21u8]).unwrap().is_none());

    // The session id is the first exchange hash.
    assert_eq!(conn.session_id.as_ref().unwrap(), &hash);

    // Both directions have moved through three packets each.
    assert_eq!(conn.seq, (3, 3));

    // Derive the directional keys as the client.
    let derive = |label: u8| sha256_parts(&[&k_mpint, &hash, &[label], &hash]);
    let iv_c2s = derive(b'A');
    let iv_s2c = derive(b'B');
    let enc_c2s = derive(b'C');
    let enc_s2c = derive(b'D');
    let client = Client {
        enc: crypto::aes::ctr(crypto::aes::KeySize::KeySize256, &enc_c2s, &iv_c2s[..16]),
        dec: crypto::aes::ctr(crypto::aes::KeySize::KeySize256, &enc_s2c, &iv_s2c[..16]),
        mac_c2s: derive(b'E'),
        mac_s2c: derive(b'F'),
        seq_out: 3,
        seq_in: 3,
        session_id: hash,
    };
    (conn, client)
}

/// Request the `ssh-userauth` service and authenticate with a password.
fn authenticate(conn: &mut Connection, client: &mut Client, password: &[u8]) -> Vec<u8> {
    let mut service = vec![5u8];
    codec::write_bytes(&mut service, b"ssh-userauth");
    let resp = client_send(conn, client, service).unwrap().unwrap();
    let accept = client_recv(conn, client, resp);
    let mut expected = vec![6u8];
    codec::write_bytes(&mut expected, b"ssh-userauth");
    assert_eq!(accept, expected);

    let mut auth = vec![50u8];
    codec::write_bytes(&mut auth, b"alice");
    codec::write_bytes(&mut auth, b"ssh-connection");
    codec::write_bytes(&mut auth, b"password");
    codec::write_bool(&mut auth, false);
    codec::write_bytes(&mut auth, password);
    let resp = client_send(conn, client, auth).unwrap().unwrap();
    client_recv(conn, client, resp)
}

/// Open a session channel and confirm the mirrored window and bound.
fn open_session_channel(conn: &mut Connection, client: &mut Client) -> ChannelId {
    let mut open = vec![90u8];
    codec::write_bytes(&mut open, b"session");
    codec::write_uint32(&mut open, 0);
    codec::write_uint32(&mut open, 1048576);
    codec::write_uint32(&mut open, 32768);
    let resp = client_send(conn, client, open).unwrap().unwrap();
    let confirm = client_recv(conn, client, resp);
    let mut expected = vec![91u8];
    codec::write_uint32(&mut expected, 0);
    codec::write_uint32(&mut expected, 0);
    codec::write_uint32(&mut expected, 1048576);
    codec::write_uint32(&mut expected, 32768);
    assert_eq!(confirm, expected);
    0
}

#[test]
fn auth_success_with_accepted_password() {
    let (mut conn, mut client) = establish(b"hunter2");
    let outcome = authenticate(&mut conn, &mut client, b"hunter2");
    assert_eq!(outcome, vec![52u8]);
}

#[test]
fn auth_failure_with_wrong_password() {
    let (mut conn, mut client) = establish(b"hunter2");
    let outcome = authenticate(&mut conn, &mut client, b"letmein");
    let mut expected = vec![51u8];
    codec::write_bytes(&mut expected, b"password");
    codec::write_bool(&mut expected, false);
    assert_eq!(outcome, expected);
}

#[test]
fn channel_open_and_data_reach_terminal() {
    let (mut conn, mut client) = establish(b"hunter2");
    assert_eq!(authenticate(&mut conn, &mut client, b"hunter2"), vec![52u8]);
    let id = open_session_channel(&mut conn, &mut client);

    // A pty request and a shell request queue the terminal work.
    let mut pty = vec![98u8];
    codec::write_uint32(&mut pty, id);
    codec::write_bytes(&mut pty, b"pty-req");
    codec::write_bool(&mut pty, true);
    codec::write_bytes(&mut pty, b"xterm");
    codec::write_uint32(&mut pty, 80);
    codec::write_uint32(&mut pty, 24);
    codec::write_uint32(&mut pty, 640);
    codec::write_uint32(&mut pty, 480);
    codec::write_bytes(&mut pty, b"");
    let resp = client_send(&mut conn, &mut client, pty).unwrap().unwrap();
    let mut expected = vec![99u8];
    codec::write_uint32(&mut expected, 0);
    assert_eq!(client_recv(&mut conn, &mut client, resp), expected);
    assert!(matches!(
        conn.actions.last(),
        Some(ChannelAction::OpenPty { channel: 0, chars: 80, rows: 24, .. })
    ));

    let mut shell = vec![98u8];
    codec::write_uint32(&mut shell, id);
    codec::write_bytes(&mut shell, b"shell");
    codec::write_bool(&mut shell, false);
    assert!(client_send(&mut conn, &mut client, shell).unwrap().is_none());
    assert!(matches!(conn.actions.last(), Some(ChannelAction::SpawnShell { channel: 0 })));

    // Channel data reaches the terminal byte-identically.
    let mut data = vec![94u8];
    codec::write_uint32(&mut data, id);
    codec::write_bytes(&mut data, b"ls\n");
    assert!(client_send(&mut conn, &mut client, data).unwrap().is_none());
    match conn.actions.last() {
        Some(ChannelAction::WriteData { channel, data }) => {
            assert_eq!(*channel, 0);
            assert_eq!(data, &b"ls\n".to_vec());
        },
        other => panic!("expected terminal data, found {:?}", other.is_some()),
    }

    // Terminal output towards the peer goes out as CHANNEL_DATA.
    let sent = conn.channel_output(id, b"file\n").unwrap();
    assert_eq!(sent, 5);
    let out = conn.pop_tx().unwrap();
    let payload = client_recv(&mut conn, &mut client, out);
    let mut expected = vec![94u8];
    codec::write_uint32(&mut expected, 0);
    codec::write_bytes(&mut expected, b"file\n");
    assert_eq!(payload, expected);
}

#[test]
fn integrity_rejection_on_any_flipped_byte() {
    let (mut conn, mut client) = establish(b"hunter2");

    // A well-formed next packet from the client, as cleartext and tag.
    let mut service = vec![5u8];
    codec::write_bytes(&mut service, b"ssh-userauth");
    let raw = frame(service);
    let tag = hmac_parts(&client.mac_c2s, &[&client.seq_out.to_be_bytes(), &raw]);

    // Flipping any byte of the packet is caught. In CTR mode a flipped
    // ciphertext byte is exactly a flipped cleartext byte, so the check
    // runs on the cleartext the decryptor would hand over.
    for i in 0..raw.len() {
        let mut bad = raw.clone();
        bad[i] ^= 0x01;
        match conn.accept_frame(bad, &tag) {
            Err(ConnectionError::IntegrityError) => {},
            other => panic!("flipped packet byte {} accepted: {:?}", i, other.is_ok()),
        }
    }
    // Flipping any byte of the MAC is caught.
    for i in 0..tag.len() {
        let mut bad = tag.clone();
        bad[i] ^= 0x80;
        match conn.accept_frame(raw.clone(), &bad) {
            Err(ConnectionError::IntegrityError) => {},
            other => panic!("flipped tag byte {} accepted: {:?}", i, other.is_ok()),
        }
    }
    // No state moved: the sequence number is where it was, and the intact
    // packet still verifies and processes.
    assert_eq!(conn.seq.0, 3);
    let mut ct = vec![0u8; raw.len()];
    client.enc.process(&raw, &mut ct);
    client.seq_out = client.seq_out.wrapping_add(1);
    let clear = conn.decrypt_incoming(ct);
    let packet = conn.accept_frame(clear, &tag).unwrap();
    assert!(conn.process(packet).unwrap().is_some());
}

#[test]
fn rekey_preserves_session_id_and_counters() {
    let (mut conn, mut client) = establish(b"hunter2");
    let first_session = conn.session_id.clone().unwrap();
    assert_eq!(first_session, client.session_id);

    // The client asks for a rekey with a fresh KEXINIT.
    let ck = client_kexinit_payload();
    let resp = client_send(&mut conn, &mut client, ck.clone()).unwrap().unwrap();
    let sk = client_recv(&mut conn, &mut client, resp);
    assert_eq!(sk[0], 20);

    let client_secret = clamp([0x55u8; 32]);
    let client_public = crypto::curve25519::curve25519_base(&client_secret);
    let mut ecdh = vec![30u8];
    codec::write_bytes(&mut ecdh, &client_public);
    let reply = client_send(&mut conn, &mut client, ecdh).unwrap().unwrap();
    let rp = client_recv(&mut conn, &mut client, reply);
    assert_eq!(rp[0], 31);
    let (host_blob, p1) = codec::read_string(&rp, 1).unwrap();
    let (server_public, _) = codec::read_string(&rp, p1).unwrap();
    let newkeys = conn.pop_tx().unwrap();
    assert_eq!(client_recv(&mut conn, &mut client, newkeys), vec![21u8]);

    // The session id is still the first exchange hash.
    assert_eq!(conn.session_id.as_ref().unwrap(), &first_session);

    // Finish the rekey: the client sends NEWKEYS under the old keys, and
    // both sides derive the new material with the old session id.
    let seq_before = conn.seq;
    assert!(client_send(&mut conn, &mut client, vec![21u8]).unwrap().is_none());
    assert_eq!(conn.seq.0, seq_before.0.wrapping_add(1));
    assert_eq!(conn.session_id.as_ref().unwrap(), &first_session);

    let shared = crypto::curve25519::curve25519(&client_secret, &server_public);
    let mut k_mpint = Vec::new();
    codec::write_mpint(&mut k_mpint, &shared);
    let mut input = Vec::new();
    codec::write_bytes(&mut input, b"SSH-2.0-ClientX");
    codec::write_bytes(&mut input, b"SSH-2.0-ssh_0.1.0");
    codec::write_bytes(&mut input, &ck);
    codec::write_bytes(&mut input, &sk);
    codec::write_bytes(&mut input, &host_blob);
    codec::write_bytes(&mut input, &client_public);
    codec::write_bytes(&mut input, &server_public);
    codec::write_raw_bytes(&mut input, &k_mpint);
    let hash2 = sha256_parts(&[&input]);
    assert_ne!(hash2, first_session);
    let derive = |label: u8| sha256_parts(&[&k_mpint, &hash2, &[label], &first_session]);
    let iv_c2s = derive(b'A');
    let iv_s2c = derive(b'B');
    let enc_c2s = derive(b'C');
    let enc_s2c = derive(b'D');
    client.enc = crypto::aes::ctr(crypto::aes::KeySize::KeySize256, &enc_c2s, &iv_c2s[..16]);
    client.dec = crypto::aes::ctr(crypto::aes::KeySize::KeySize256, &enc_s2c, &iv_s2c[..16]);
    client.mac_c2s = derive(b'E');
    client.mac_s2c = derive(b'F');

    // The connection still works under the new keys, and the sequence
    // numbers carried straight on.
    let outcome = authenticate(&mut conn, &mut client, b"hunter2");
    assert_eq!(outcome, vec![52u8]);
}

#[test]
fn window_bookkeeping_and_close() {
    let (mut conn, mut client) = establish(b"hunter2");
    assert_eq!(authenticate(&mut conn, &mut client, b"hunter2"), vec![52u8]);

    // Open a channel with a small window to watch the flow control.
    let mut open = vec![90u8];
    codec::write_bytes(&mut open, b"session");
    codec::write_uint32(&mut open, 7);
    codec::write_uint32(&mut open, 10);
    codec::write_uint32(&mut open, 4);
    let resp = client_send(&mut conn, &mut client, open).unwrap().unwrap();
    client_recv(&mut conn, &mut client, resp);

    // Six received bytes push the window below half; the server tops it
    // back up with a WINDOW_ADJUST for the consumed amount.
    let mut data = vec![94u8];
    codec::write_uint32(&mut data, 0);
    codec::write_bytes(&mut data, b"abcdef");
    assert!(client_send(&mut conn, &mut client, data).unwrap().is_none());
    let adjust = conn.pop_tx().unwrap();
    let payload = client_recv(&mut conn, &mut client, adjust);
    let mut expected = vec![93u8];
    codec::write_uint32(&mut expected, 7);
    codec::write_uint32(&mut expected, 6);
    assert_eq!(payload, expected);

    // Data beyond the window is a protocol violation.
    let mut data = vec![94u8];
    codec::write_uint32(&mut data, 0);
    codec::write_bytes(&mut data, &[0u8; 11]);
    assert!(matches!(
        client_send(&mut conn, &mut client, data),
        Err(ConnectionError::ProtocolError)
    ));

    // Outbound data respects the peer's packet bound of four bytes.
    let taken = conn.channel_output(0, b"abcdefgh").unwrap();
    assert_eq!(taken, 4);
    let out = conn.pop_tx().unwrap();
    let payload = client_recv(&mut conn, &mut client, out);
    let mut expected = vec![94u8];
    codec::write_uint32(&mut expected, 7);
    codec::write_bytes(&mut expected, b"abcd");
    assert_eq!(payload, expected);

    // A peer close is answered with the server's own close, and the
    // channel is gone afterwards.
    let mut close = vec![97u8];
    codec::write_uint32(&mut close, 0);
    let resp = client_send(&mut conn, &mut client, close).unwrap().unwrap();
    let payload = client_recv(&mut conn, &mut client, resp);
    let mut expected = vec![97u8];
    codec::write_uint32(&mut expected, 7);
    assert_eq!(payload, expected);
    let mut close = vec![97u8];
    codec::write_uint32(&mut close, 0);
    assert!(matches!(
        client_send(&mut conn, &mut client, close),
        Err(ConnectionError::ProtocolError)
    ));
}

#[test]
fn server_side_close_sends_eof_then_close() {
    let (mut conn, mut client) = establish(b"hunter2");
    assert_eq!(authenticate(&mut conn, &mut client, b"hunter2"), vec![52u8]);
    let id = open_session_channel(&mut conn, &mut client);

    conn.close_channel(id).unwrap();
    let eof = conn.pop_tx().unwrap();
    let mut expected = vec![96u8];
    codec::write_uint32(&mut expected, 0);
    assert_eq!(client_recv(&mut conn, &mut client, eof), expected);
    let close = conn.pop_tx().unwrap();
    let mut expected = vec![97u8];
    codec::write_uint32(&mut expected, 0);
    assert_eq!(client_recv(&mut conn, &mut client, close), expected);

    // The channel is gone.
    assert!(matches!(conn.close_channel(id), Err(ConnectionError::ProtocolError)));
}

#[test]
fn protocol_errors_are_reported() {
    // An unconsumed message type is a protocol error.
    let (mut conn, mut client) = establish(b"hunter2");
    assert!(matches!(
        client_send(&mut conn, &mut client, vec![80u8]),
        Err(ConnectionError::ProtocolError)
    ));

    // NEWKEYS before the exchange has produced keys.
    let mut conn = new_server(b"hunter2");
    conn.send_id();
    conn.read_id(b"SSH-2.0-ClientX\r\n").unwrap();
    let resp = plain_send(&mut conn, client_kexinit_payload()).unwrap().unwrap();
    conn.send_packet(resp);
    assert!(matches!(
        plain_send(&mut conn, vec![21u8]),
        Err(ConnectionError::KeyGenerationError)
    ));

    // A key-exchange message the engine does not take.
    let mut conn = new_server(b"hunter2");
    conn.send_id();
    conn.read_id(b"SSH-2.0-ClientX\r\n").unwrap();
    let resp = plain_send(&mut conn, client_kexinit_payload()).unwrap().unwrap();
    conn.send_packet(resp);
    assert!(matches!(
        plain_send(&mut conn, vec![32u8, 0, 0, 0, 0]),
        Err(ConnectionError::KeyExchangeError)
    ));

    // A client that shares no key-exchange algorithm.
    let mut conn = new_server(b"hunter2");
    conn.send_id();
    conn.read_id(b"SSH-2.0-ClientX\r\n").unwrap();
    let mut p = vec![20u8];
    p.extend_from_slice(&[0xAA; 16]);
    for list in [
        &b"diffie-hellman-group14-sha1"[..],
        b"ssh-ed25519",
        b"aes256-ctr",
        b"aes256-ctr",
        b"hmac-sha2-256",
        b"hmac-sha2-256",
        b"none",
        b"none",
    ] {
        codec::write_bytes(&mut p, list);
    }
    codec::write_bytes(&mut p, b"");
    codec::write_bytes(&mut p, b"");
    codec::write_bool(&mut p, false);
    codec::write_uint32(&mut p, 0);
    assert!(matches!(plain_send(&mut conn, p), Err(ConnectionError::NegotiationError)));
}
