//! Sequence-numbered MAC signing and verification, and the stream cipher.

use ssh::mac::Hmac;
use ssh::primitives::AesCtr;

#[test]
fn ctr_decrypt_inverts_encrypt() {
    let key = [7u8; 32];
    let iv = [9u8; 16];
    let mut enc = AesCtr::new(&key, &iv);
    let mut dec = AesCtr::new(&key, &iv);
    let data = b"a stream of twenty-nine bytes";
    let ct = enc.process(data);
    assert_eq!(ct.len(), data.len());
    assert_ne!(ct, data.to_vec());
    assert_eq!(dec.process(&ct), data.to_vec());
    // The position advances: the same input enciphers differently later
    // in the stream, and a fresh instance repeats the stream.
    let ct2 = enc.process(data);
    assert_ne!(ct, ct2);
    let mut again = AesCtr::new(&key, &iv);
    assert_eq!(again.process(data), ct);
}

#[test]
fn hmac_matches_rfc_vector() {
    // RFC 4231 test case 2: key "Jefe", data "what do ya want for nothing?".
    // The MAC input is seq:u32-be || data, so the first four data bytes
    // "what" stand in for the sequence number.
    let seq = u32::from_be_bytes(*b"what");
    let mac = Hmac::new(b"Jefe".to_vec());
    let tag = mac.sign(b" do ya want for nothing?", seq);
    let expected: [u8; 32] = [
        0x5b, 0xdc, 0xc1, 0x46, 0xbf, 0x60, 0x75, 0x4e, 0x6a, 0x04, 0x24, 0x26, 0x08, 0x95,
        0x75, 0xc7, 0x5a, 0x00, 0x3f, 0x08, 0x9d, 0x27, 0x39, 0x83, 0x9d, 0xec, 0x58, 0xb9,
        0x64, 0xec, 0x38, 0x43,
    ];
    assert_eq!(tag, expected.to_vec());
}

#[test]
fn mac_sign_verify_round_trip() {
    let mac = Hmac::new(vec![7u8; 32]);
    let packet = b"\x00\x00\x00\x1c\x0a\x05\x00\x00\x00\x0cssh-userauth\x00\x00\x00\x00\x00\x00\x00\x00\x00\x00";
    for seq in [0u32, 1, 2, 0xFFFFFFFF] {
        let tag = mac.sign(packet, seq);
        assert_eq!(tag.len(), 32);
        assert!(mac.verify(packet, seq, &tag));
        // The same tag under another sequence number fails.
        assert!(!mac.verify(packet, seq.wrapping_add(1), &tag));
    }
}

#[test]
fn mac_rejects_every_bit_flip() {
    let mac = Hmac::new(vec![3u8; 32]);
    let packet = b"\x00\x00\x00\x0c\x0a\x15\x00\x00\x00\x00\x00\x00\x00\x00\x00\x00";
    let tag = mac.sign(packet, 5);
    // Flip each bit of the packet.
    for i in 0..packet.len() {
        for bit in 0..8 {
            let mut bad = packet.to_vec();
            bad[i] ^= 1u8 << bit;
            assert!(!mac.verify(&bad, 5, &tag));
        }
    }
    // Flip each bit of the tag.
    for i in 0..tag.len() {
        for bit in 0..8 {
            let mut bad = tag.clone();
            bad[i] ^= 1u8 << bit;
            assert!(!mac.verify(packet, 5, &bad));
        }
    }
    assert!(mac.verify(packet, 5, &tag));
}

#[test]
fn mac_differs_from_its_input() {
    // The tag is a function of key and message, not either one echoed.
    let mac = Hmac::new(vec![0u8; 32]);
    let tag = mac.sign(&[0u8; 28], 0);
    assert_ne!(tag, vec![0u8; 32]);
    let other = Hmac::new(vec![1u8; 32]).sign(&[0u8; 28], 0);
    assert_ne!(tag, other);
}
