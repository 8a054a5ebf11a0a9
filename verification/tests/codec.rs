//! Round trips and framing rules of the wire codec.

use ssh::codec;
use ssh::error::ConnectionError;
use ssh::packet::Packet;

#[test]
fn uint32_round_trip() {
    for v in [0u32, 1, 255, 256, 0xDEADBEEF, u32::MAX] {
        let mut out = Vec::new();
        codec::write_uint32(&mut out, v);
        assert_eq!(out.len(), 4);
        let (back, end) = codec::read_uint32(&out, 0).unwrap();
        assert_eq!(back, v);
        assert_eq!(end, 4);
    }
    let mut out = Vec::new();
    codec::write_uint32(&mut out, 0x01020304);
    assert_eq!(out, vec![1, 2, 3, 4]);
}

#[test]
fn bool_round_trip() {
    for b in [false, true] {
        let mut out = Vec::new();
        codec::write_bool(&mut out, b);
        assert_eq!(out, vec![if b { 1 } else { 0 }]);
        let (back, end) = codec::read_bool(&out, 0).unwrap();
        assert_eq!(back, b);
        assert_eq!(end, 1);
    }
    // Any non-zero byte reads as true.
    assert_eq!(codec::read_bool(&[7], 0).unwrap().0, true);
}

#[test]
fn string_round_trip() {
    for s in [&b""[..], b"x", b"hello world", &[0u8, 255, 128, 44][..]] {
        let mut out = Vec::new();
        codec::write_bytes(&mut out, s);
        assert_eq!(out.len(), 4 + s.len());
        let (back, end) = codec::read_string(&out, 0).unwrap();
        assert_eq!(back, s.to_vec());
        assert_eq!(end, out.len());
    }
    // A truncated string does not parse.
    let mut out = Vec::new();
    codec::write_bytes(&mut out, b"abc");
    assert!(codec::read_string(&out[..5], 0).is_none());
}

#[test]
fn mpint_round_trip() {
    // Zero encodes as the empty string.
    let mut out = Vec::new();
    codec::write_mpint(&mut out, &[]);
    assert_eq!(out, vec![0, 0, 0, 0]);
    let (mag, _) = codec::read_mpint(&out, 0).unwrap();
    assert_eq!(mag, Vec::<u8>::new());

    // A high first bit gains a leading 0x00 on the wire and loses it again.
    let mut out = Vec::new();
    codec::write_mpint(&mut out, &[0x80, 0x01]);
    assert_eq!(out, vec![0, 0, 0, 3, 0x00, 0x80, 0x01]);
    let (mag, _) = codec::read_mpint(&out, 0).unwrap();
    assert_eq!(mag, vec![0x80, 0x01]);

    // Leading zero bytes are canonicalised away.
    let mut out = Vec::new();
    codec::write_mpint(&mut out, &[0x00, 0x00, 0x12, 0x34]);
    assert_eq!(out, vec![0, 0, 0, 2, 0x12, 0x34]);
    let (mag, _) = codec::read_mpint(&out, 0).unwrap();
    assert_eq!(mag, vec![0x12, 0x34]);

    // An ordinary positive value is unchanged.
    let mut out = Vec::new();
    codec::write_mpint(&mut out, &[0x12, 0x34, 0x56]);
    let (mag, _) = codec::read_mpint(&out, 0).unwrap();
    assert_eq!(mag, vec![0x12, 0x34, 0x56]);

    // A negative wire value (high bit set, no leading zero) is refused.
    assert!(codec::read_mpint(&[0, 0, 0, 1, 0x80], 0).is_none());
}

#[test]
fn name_list_round_trip() {
    let names: Vec<Vec<u8>> = vec![b"curve25519-sha256".to_vec(), b"ext-info-c".to_vec()];
    let mut out = Vec::new();
    codec::write_name_list(&mut out, &names);
    assert_eq!(&out[..4], &[0, 0, 0, 28]);
    assert_eq!(&out[4..], b"curve25519-sha256,ext-info-c");
    let (back, end) = codec::read_name_list(&out, 0).unwrap();
    assert_eq!(back, names);
    assert_eq!(end, out.len());

    // The empty list is the empty string.
    let empty: Vec<Vec<u8>> = Vec::new();
    let mut out = Vec::new();
    codec::write_name_list(&mut out, &empty);
    assert_eq!(out, vec![0, 0, 0, 0]);
    let (back, _) = codec::read_name_list(&out, 0).unwrap();
    assert!(back.is_empty());
}

#[test]
fn eq_bytes_works() {
    assert!(codec::eq_bytes(b"abc", b"abc"));
    assert!(!codec::eq_bytes(b"abc", b"abd"));
    assert!(!codec::eq_bytes(b"abc", b"ab"));
    assert!(codec::eq_bytes(b"", b""));
}

#[test]
fn framing_alignment_and_padding() {
    for len in [1usize, 2, 26, 27, 28, 100, 1000, 32000] {
        let payload = vec![42u8; len];
        let raw = Packet::Payload(payload.clone()).to_raw();
        let data = raw.data().clone();
        // The framed unit is a whole number of alignment blocks.
        assert_eq!(data.len() % 32, 0);
        // packet_length covers padding byte, payload and padding.
        let packet_len = u32::from_be_bytes([data[0], data[1], data[2], data[3]]) as usize;
        assert_eq!(packet_len + 4, data.len());
        let padding = data[4] as usize;
        assert!(padding >= 4 && padding <= 255);
        assert_eq!(packet_len, 1 + payload.len() + padding);
        // The payload sits after the header, byte for byte.
        assert_eq!(&data[5..5 + len], &payload[..]);
        // Parsing the frame recovers the payload.
        let parsed = Packet::read_from(data).unwrap();
        assert_eq!(parsed.payload(), payload);
    }
}

#[test]
fn frame_body_len_bounds() {
    // A plausible header gives the announced length.
    assert_eq!(ssh::packet::frame_body_len(&[0, 0, 0, 28]), Ok(28));
    assert_eq!(ssh::packet::frame_body_len(&[0, 0, 0x88, 0xB8]), Ok(35000));
    // Too short for any packet, or over the bound, violates the length rule.
    assert_eq!(
        ssh::packet::frame_body_len(&[0, 0, 0, 11]),
        Err(ConnectionError::IntegrityError)
    );
    assert_eq!(
        ssh::packet::frame_body_len(&[0, 0, 0x88, 0xB9]),
        Err(ConnectionError::IntegrityError)
    );
}

#[test]
fn error_messages_name_the_kind() {
    assert_eq!(ConnectionError::IoError.message(), "io error");
    assert_eq!(ConnectionError::ProtocolError.message(), "protocol error");
    assert_eq!(ConnectionError::NegotiationError.message(), "negotiation error");
    assert_eq!(ConnectionError::KeyExchangeError.message(), "key exchange error");
    assert_eq!(ConnectionError::KeyGenerationError.message(), "key generation error");
    assert_eq!(ConnectionError::IntegrityError.message(), "integrity error");
}

#[test]
fn read_from_refuses_bad_frames() {
    // Too short.
    assert!(matches!(
        Packet::read_from(vec![0, 0, 0, 1, 0]),
        Err(ConnectionError::ProtocolError)
    ));
    // Length field that does not match the buffer.
    assert!(matches!(
        Packet::read_from(vec![0, 0, 0, 99, 4, 20, 0, 0, 0, 0]),
        Err(ConnectionError::IntegrityError)
    ));
    // Over the length bound.
    let huge = vec![0u8; 40000];
    assert!(matches!(
        Packet::read_from(huge),
        Err(ConnectionError::IntegrityError)
    ));
    // Padding that leaves no payload.
    let mut bad = vec![0, 0, 0, 6, 5, 0, 0, 0, 0, 0];
    bad[4] = 5;
    assert!(matches!(
        Packet::read_from(bad),
        Err(ConnectionError::ProtocolError)
    ));
}
