//! The version banner exchange.

use ssh::protocol::{banner, parse_identification, send_identification};

#[test]
fn server_banner_is_exact() {
    assert_eq!(send_identification(), b"SSH-2.0-ssh_0.1.0\r\n".to_vec());
    assert_eq!(banner(), b"SSH-2.0-ssh_0.1.0".to_vec());
}

#[test]
fn identification_skips_leading_garbage() {
    let id = parse_identification(b"garbage\r\nSSH-2.0-ClientX\r\n").unwrap();
    assert_eq!(id, b"SSH-2.0-ClientX".to_vec());
    // A bare line feed works too, and the line keeps no ending.
    let id = parse_identification(b"one\ntwo\nSSH-2.0-Plain\n").unwrap();
    assert_eq!(id, b"SSH-2.0-Plain".to_vec());
    // The first SSH- line wins.
    let id = parse_identification(b"SSH-2.0-First\r\nSSH-2.0-Second\r\n").unwrap();
    assert_eq!(id, b"SSH-2.0-First".to_vec());
}

#[test]
fn identification_requires_an_ssh_line() {
    assert!(parse_identification(b"").is_none());
    assert!(parse_identification(b"hello\r\nworld\r\n").is_none());
    assert!(parse_identification(b"SS").is_none());
}
