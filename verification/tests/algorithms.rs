//! Negotiation and the algorithm registry.

use ssh::algorithm::{
    negotiate, AlgorithmId, CompressionAlgorithm, EncryptionAlgorithm, KeyExchangeAlgorithm,
    MacAlgorithm, PublicKeyAlgorithm,
};
use ssh::error::ConnectionError;
use ssh::message::MessageType;
use EncryptionAlgorithm::{AES128_CTR, AES192_CBC, AES256_CTR};
use MacAlgorithm::{HMAC_SHA1, HMAC_SHA2_256, HMAC_SHA2_512};

#[test]
fn negotiate_takes_first_client_match() {
    // The first client entry the server lists wins, whatever the server
    // prefers.
    let server = [AES256_CTR, AES128_CTR];
    let client = [AES192_CBC, AES128_CTR, AES256_CTR];
    assert_eq!(negotiate(&server, &client), Ok(AES128_CTR));
    // A client entry the server lacks is skipped.
    let client = [AES192_CBC, AES256_CTR];
    assert_eq!(negotiate(&server, &client), Ok(AES256_CTR));
}

#[test]
fn negotiate_fails_on_empty_intersection() {
    let server = [HMAC_SHA2_256];
    let client = [HMAC_SHA1, HMAC_SHA2_512];
    assert_eq!(negotiate(&server, &client), Err(ConnectionError::NegotiationError));
    let none: [MacAlgorithm; 0] = [];
    assert_eq!(negotiate(&server, &none), Err(ConnectionError::NegotiationError));
}

#[test]
fn algorithm_names_round_trip() {
    assert_eq!(
        KeyExchangeAlgorithm::of_name(b"curve25519-sha256"),
        Some(KeyExchangeAlgorithm::CURVE25519_SHA256)
    );
    assert_eq!(
        KeyExchangeAlgorithm::of_name(b"ext-info-c"),
        Some(KeyExchangeAlgorithm::EXT_INFO_C)
    );
    assert_eq!(KeyExchangeAlgorithm::of_name(b"no-such-kex"), None);
    assert_eq!(KeyExchangeAlgorithm::CURVE25519_SHA256.name(), "curve25519-sha256");

    assert_eq!(
        PublicKeyAlgorithm::of_name(b"ssh-ed25519"),
        Some(PublicKeyAlgorithm::SSH_ED25519)
    );
    assert_eq!(PublicKeyAlgorithm::SSH_ED25519.name(), "ssh-ed25519");

    assert_eq!(
        EncryptionAlgorithm::of_name(b"aes256-ctr"),
        Some(EncryptionAlgorithm::AES256_CTR)
    );
    assert_eq!(EncryptionAlgorithm::AES256_CTR.name(), "aes256-ctr");

    assert_eq!(MacAlgorithm::of_name(b"hmac-sha2-256"), Some(MacAlgorithm::HMAC_SHA2_256));
    assert_eq!(MacAlgorithm::HMAC_SHA2_256.name(), "hmac-sha2-256");

    assert_eq!(
        CompressionAlgorithm::of_name(b"none"),
        Some(CompressionAlgorithm::NoCompression)
    );
    assert_eq!(CompressionAlgorithm::of_name(b"zlib"), Some(CompressionAlgorithm::Zlib));
    assert_eq!(CompressionAlgorithm::NoCompression.name(), "none");

    for a in [
        KeyExchangeAlgorithm::CURVE25519_SHA256,
        KeyExchangeAlgorithm::DH_GROUP14_SHA1,
        KeyExchangeAlgorithm::EXT_INFO_C,
    ] {
        assert_eq!(KeyExchangeAlgorithm::of_name(a.name().as_bytes()), Some(a));
    }
}

#[test]
fn message_type_numbers() {
    assert_eq!(MessageType::from_u8(20), MessageType::KexInit);
    assert_eq!(MessageType::from_u8(21), MessageType::NewKeys);
    assert_eq!(MessageType::from_u8(30), MessageType::KeyExchange(30));
    assert_eq!(MessageType::from_u8(49), MessageType::KeyExchange(49));
    assert_eq!(MessageType::from_u8(50), MessageType::UserAuthRequest);
    assert_eq!(MessageType::from_u8(94), MessageType::ChannelData);
    assert_eq!(MessageType::from_u8(7), MessageType::Unknown);
    for id in [1u8, 5, 6, 20, 21, 35, 50, 51, 52, 90, 91, 92, 93, 94, 96, 97, 98, 99, 100] {
        assert_eq!(MessageType::from_u8(id).to_u8(), id);
    }
}
