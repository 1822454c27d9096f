use rvpnse::c_api::{c_text, error_message, status_code, tunnel_text_reply, VPNSEError};
use rvpnse::client::ConnectionStatus;
use rvpnse::crypto::CryptoEngine;
use rvpnse::error::VpnError;

#[test]
fn encrypt_then_decrypt_gives_the_data() {
    let engine = CryptoEngine::new().unwrap();
    let key = [7u8; 32];
    let sealed = engine.encrypt(b"secret payload", &key).unwrap();
    assert_eq!(sealed.len(), 12 + 14 + 16);
    assert_eq!(engine.decrypt(&sealed, &key).unwrap(), b"secret payload".to_vec());
    let mut tampered = sealed.clone();
    tampered[20] ^= 1;
    assert!(engine.decrypt(&tampered, &key).is_err());
}

#[test]
fn encrypt_with_fixed_nonce_puts_nonce_first() {
    let engine = CryptoEngine::new().unwrap();
    let key = [1u8; 32];
    let nonce = [9u8; 12];
    let sealed = engine.encrypt_with_nonce(b"abc", &key, &nonce).unwrap();
    assert_eq!(&sealed[..12], &nonce);
    assert_eq!(engine.decrypt(&sealed, &key).unwrap(), b"abc".to_vec());
}

#[test]
fn crypto_refuses_bad_input() {
    let engine = CryptoEngine::new().unwrap();
    match engine.encrypt(b"x", &[0u8; 16]) {
        Err(VpnError::Network(m)) => assert_eq!(m, "Key must be 32 bytes for AES-256"),
        _ => panic!("expected a key error"),
    }
    match engine.decrypt(&[0u8; 5], &[0u8; 32]) {
        Err(VpnError::Network(m)) => assert_eq!(m, "Data too short to contain nonce"),
        _ => panic!("expected a length error"),
    }
}

#[test]
fn hash_and_key_derivation() {
    let engine = CryptoEngine::new().unwrap();
    let h = engine.hash(b"abc").unwrap();
    assert_eq!(h[0], 0xba);
    assert_eq!(h[31], 0xad);
    let k0 = engine.derive_key(b"pw", b"salt", 0).unwrap();
    let k1000 = engine.derive_key(b"pw", b"salt", 1000).unwrap();
    assert_eq!(k0, k1000);
    assert_eq!(k0.len(), 32);
    assert_eq!(engine.random_bytes(16).unwrap().len(), 16);
}

#[test]
fn c_interface_codes() {
    assert_eq!(VPNSEError::from(VpnError::Config("x".to_string())).code(), 1);
    assert_eq!(VPNSEError::from(VpnError::Routing("x".to_string())).code(), 6);
    assert_eq!(VPNSEError::from(VpnError::Timeout("x".to_string())).code(), 99);
    assert_eq!(status_code(Some(ConnectionStatus::Tunneling)), 3);
    assert_eq!(status_code(None), -1);
}

#[test]
fn c_interface_buffers() {
    assert_eq!(c_text("10.0.0.2", 9).unwrap(), b"10.0.0.2\0".to_vec());
    assert_eq!(c_text("10.0.0.2", 8).unwrap_err(), VPNSEError::BufferTooSmall);
    assert_eq!(c_text("a\0b", 10).unwrap_err(), VPNSEError::InvalidParameter);
    assert_eq!(tunnel_text_reply(None, 10).0, 1);
    assert_eq!(tunnel_text_reply(Some("x"), 0).0, 5);
    assert_eq!(error_message("hello", 4), b"hel\0".to_vec());
    assert_eq!(error_message("hi", 10), b"hi\0\0".to_vec());
}

#[test]
fn no_random_bytes_are_always_had() {
    let engine = CryptoEngine::new().unwrap();
    assert_eq!(engine.random_bytes(0).unwrap(), Vec::<u8>::new());
}
