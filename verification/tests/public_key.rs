//! The Ed25519 host-key system: round trips, signatures, and rejection of
//! a corrupted message.

use rand::RngCore;
use ssh::public_key::Ed25519KeyPair;

fn test_export_import(keypair: &Ed25519KeyPair) -> Ed25519KeyPair {
    // Export the keypair to a vector and import it again
    let buffer = keypair.export();
    Ed25519KeyPair::import(&buffer).unwrap()
}

fn test_crypto_system() {
    // Generate a key pair
    let keypair = Ed25519KeyPair::generate();

    // Export and import that key pair again
    let keypair2 = test_export_import(&keypair);

    // Generate a random message
    let mut buffer = [0; 4096];
    let mut rng = rand::thread_rng();
    rng.fill_bytes(&mut buffer);

    // Sign the message and verify it
    let signature = keypair.sign(&buffer).unwrap();
    let verified = keypair2.verify(&buffer, signature.as_slice());
    assert!(verified);

    // Corrupt random message and try again
    buffer[2342] = !buffer[2342];
    let verified = keypair2.verify(&buffer, signature.as_slice());
    assert!(!verified);
}

#[test]
fn public_key_test_ed25519() {
    test_crypto_system();
}

#[test]
fn import_rejects_malformed_bytes() {
    // Truncated, misnamed, and wrongly sized material all fail to parse.
    assert!(Ed25519KeyPair::import(b"").is_err());
    let good = Ed25519KeyPair::generate().export();
    assert!(Ed25519KeyPair::import(&good[..good.len() - 1]).is_err());
    let mut misnamed = good.clone();
    misnamed[4] = b'x';
    assert!(Ed25519KeyPair::import(&misnamed).is_err());
    let mut short_key = good.clone();
    short_key[18] = 31;
    assert!(Ed25519KeyPair::import(&short_key).is_err());
    // The untouched export still parses.
    assert!(Ed25519KeyPair::import(&good).is_ok());
}
