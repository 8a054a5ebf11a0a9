//! The Ed25519 host-key system: a generated pair survives export and
//! import, and its signatures verify.

use rand::RngCore;
use ssh::public_key::Ed25519KeyPair;

fn test_export_import(keypair: &Ed25519KeyPair) -> Ed25519KeyPair {
    let buffer = keypair.export();
    Ed25519KeyPair::import(&buffer).unwrap()
}

fn test_crypto_system() {
    let keypair = Ed25519KeyPair::generate();
    let keypair2 = test_export_import(&keypair);

    let mut buffer = [0; 4096];
    let mut rng = rand::thread_rng();
    rng.fill_bytes(&mut buffer);

    let signature = keypair.sign(&buffer).unwrap();
    let verified = keypair2.verify(&buffer, signature.as_slice());
    assert!(verified)
}

#[test]
fn crypto_systems_test_ed25519() {
    test_crypto_system();
}
