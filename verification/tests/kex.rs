//! The Curve25519-SHA256 exchange with fixed scalars: the produced hash,
//! reply and signature agree bit-for-bit with an independent computation.

use crypto::digest::Digest;
use ssh::codec;
use ssh::kex::{Curve25519, HashData, KexResult};
use ssh::packet::Packet;
use ssh::public_key::Ed25519KeyPair;

fn clamp(mut s: [u8; 32]) -> [u8; 32] {
    s[0] &= 248;
    s[31] &= 127;
    s[31] |= 64;
    s
}

fn fixed_hash_data() -> HashData {
    HashData {
        client_id: Some(b"SSH-2.0-ClientX".to_vec()),
        server_id: Some(b"SSH-2.0-ssh_0.1.0".to_vec()),
        client_kexinit: Some(vec![20, 1, 2, 3]),
        server_kexinit: Some(vec![20, 9, 8, 7]),
    }
}

fn ecdh_init_packet(client_public: &[u8]) -> Packet {
    let mut payload = vec![30u8];
    codec::write_bytes(&mut payload, client_public);
    Packet::Payload(payload)
}

fn run_fixed_exchange(hash_data: &HashData) -> (Curve25519, Vec<u8>) {
    let host_key = Ed25519KeyPair::from_seed(&[9u8; 32]);
    let client_secret = clamp([0x44u8; 32]);
    let client_public = crypto::curve25519::curve25519_base(&client_secret);
    let packet = ecdh_init_packet(&client_public);
    let mut kex = Curve25519::new();
    let server_secret = vec![0x77u8; 32];
    let result = kex.process_with_secret(hash_data, &host_key, &packet, server_secret);
    let reply = match result {
        KexResult::Done(p) => p,
        _ => panic!("exchange did not complete"),
    };
    (kex, reply.payload())
}

#[test]
fn fixed_scalars_match_reference_computation() {
    let hash_data = fixed_hash_data();
    let (kex, reply) = run_fixed_exchange(&hash_data);

    // Parse the reply: type, host key blob, server ephemeral, signature.
    assert_eq!(reply[0], 31);
    let (host_blob, p1) = codec::read_string(&reply, 1).unwrap();
    let (server_public, p2) = codec::read_string(&reply, p1).unwrap();
    let (sig_blob, p3) = codec::read_string(&reply, p2).unwrap();
    assert_eq!(p3, reply.len());

    // The server's ephemeral key is the base-point product of its scalar.
    let server_secret = clamp([0x77u8; 32]);
    assert_eq!(server_public, crypto::curve25519::curve25519_base(&server_secret).to_vec());

    // Both sides compute the same shared point.
    let client_secret = clamp([0x44u8; 32]);
    let client_public = crypto::curve25519::curve25519_base(&client_secret);
    let shared_client = crypto::curve25519::curve25519(&client_secret, &server_public);
    let shared_server = crypto::curve25519::curve25519(&server_secret, &client_public);
    assert_eq!(shared_client, shared_server);

    // Recompute the exchange hash independently.
    let mut k_mpint = Vec::new();
    codec::write_mpint(&mut k_mpint, &shared_client);
    assert_eq!(kex.shared_secret().unwrap(), &k_mpint);

    let mut input = Vec::new();
    codec::write_bytes(&mut input, b"SSH-2.0-ClientX");
    codec::write_bytes(&mut input, b"SSH-2.0-ssh_0.1.0");
    codec::write_bytes(&mut input, &[20, 1, 2, 3]);
    codec::write_bytes(&mut input, &[20, 9, 8, 7]);
    codec::write_bytes(&mut input, &host_blob);
    codec::write_bytes(&mut input, &client_public);
    codec::write_bytes(&mut input, &server_public);
    codec::write_raw_bytes(&mut input, &k_mpint);
    let mut hasher = crypto::sha2::Sha256::new();
    let mut expected_hash = [0u8; 32];
    hasher.input(&input);
    hasher.result(&mut expected_hash);
    assert_eq!(kex.exchange_hash().unwrap(), &expected_hash.to_vec());

    // The host key blob carries the Ed25519 public key, and the signature
    // over the hash verifies under it.
    let (algo, q1) = codec::read_string(&host_blob, 0).unwrap();
    assert_eq!(algo, b"ssh-ed25519".to_vec());
    let (host_public, _) = codec::read_string(&host_blob, q1).unwrap();
    let (sig_algo, q2) = codec::read_string(&sig_blob, 0).unwrap();
    assert_eq!(sig_algo, b"ssh-ed25519".to_vec());
    let (signature, _) = codec::read_string(&sig_blob, q2).unwrap();
    assert!(crypto::ed25519::verify(&expected_hash, &host_public, &signature));
}

#[test]
fn exchange_hash_is_deterministic() {
    let hash_data = fixed_hash_data();
    let (kex1, reply1) = run_fixed_exchange(&hash_data);
    let (kex2, reply2) = run_fixed_exchange(&hash_data);
    assert_eq!(kex1.exchange_hash().unwrap(), kex2.exchange_hash().unwrap());
    assert_eq!(reply1, reply2);
}

#[test]
fn exchange_hash_changes_with_any_field() {
    let base = fixed_hash_data();
    let (kex0, _) = run_fixed_exchange(&base);
    let h0 = kex0.exchange_hash().unwrap().clone();

    let mut swapped = fixed_hash_data();
    swapped.client_id = Some(b"SSH-2.0-ClientY".to_vec());
    let (kex1, _) = run_fixed_exchange(&swapped);
    assert_ne!(&h0, kex1.exchange_hash().unwrap());

    let mut swapped = fixed_hash_data();
    swapped.server_id = Some(b"SSH-2.0-other".to_vec());
    let (kex2, _) = run_fixed_exchange(&swapped);
    assert_ne!(&h0, kex2.exchange_hash().unwrap());

    let mut swapped = fixed_hash_data();
    swapped.client_kexinit = Some(vec![20, 1, 2, 4]);
    let (kex3, _) = run_fixed_exchange(&swapped);
    assert_ne!(&h0, kex3.exchange_hash().unwrap());

    let mut swapped = fixed_hash_data();
    swapped.server_kexinit = Some(vec![20, 9, 8, 6]);
    let (kex4, _) = run_fixed_exchange(&swapped);
    assert_ne!(&h0, kex4.exchange_hash().unwrap());
}

#[test]
fn rejects_wrong_kex_message_and_short_point() {
    let hash_data = fixed_hash_data();
    let host_key = Ed25519KeyPair::from_seed(&[9u8; 32]);
    let mut kex = Curve25519::new();
    // The wrong message number fails.
    let bad = Packet::Payload(vec![32u8, 0, 0, 0, 0]);
    assert!(matches!(
        kex.process_with_secret(&hash_data, &host_key, &bad, vec![0x77; 32]),
        KexResult::Failed
    ));
    // A point of the wrong size fails.
    let short = ecdh_init_packet(&[1u8; 16]);
    assert!(matches!(
        kex.process_with_secret(&hash_data, &host_key, &short, vec![0x77; 32]),
        KexResult::Failed
    ));
    assert!(kex.exchange_hash().is_none());
}
