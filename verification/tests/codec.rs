use base64::engine::general_purpose::URL_SAFE;
use base64::Engine;
use sodiumoxide::crypto::box_;
use unsealer::base64key::{PublicKeyValue, SecretKeyValue};
use unsealer::codec::{decode_payload, encode_payload, CodecError};

fn key_values() -> (PublicKeyValue, SecretKeyValue, PublicKeyValue, SecretKeyValue) {
    sodiumoxide::init().ok();
    let (server_pk, server_sk) = box_::gen_keypair();
    let (manager_pk, manager_sk) = box_::gen_keypair();
    (
        PublicKeyValue::from_str(&URL_SAFE.encode(server_pk)).unwrap(),
        SecretKeyValue::from_str(&URL_SAFE.encode(server_sk)).unwrap(),
        PublicKeyValue::from_str(&URL_SAFE.encode(manager_pk)).unwrap(),
        SecretKeyValue::from_str(&URL_SAFE.encode(manager_sk)).unwrap(),
    )
}

#[test]
fn round_trip_returns_exact_plaintext() {
    let (server_pk, server_sk, manager_pk, manager_sk) = key_values();
    for plaintext in [
        "{\"secret\":\"world\"}",
        "{}",
        "{\"api_key\":\"secret_value\",\"n\":42}",
        "plain text, not even json",
        "",
    ] {
        let envelope = encode_payload(plaintext, &manager_sk, &server_pk);
        let opened = decode_payload(&envelope, &server_sk, &manager_pk);
        assert_eq!(opened.unwrap(), plaintext);
    }
}

#[test]
fn tampering_any_single_byte_fails_authentication() {
    let (server_pk, server_sk, manager_pk, manager_sk) = key_values();
    let envelope = encode_payload("{\"secret\":\"world\"}", &manager_sk, &server_pk);
    let raw = URL_SAFE.decode(&envelope).unwrap();
    for idx in 0..raw.len() {
        let mut tampered = raw.clone();
        tampered[idx] ^= 1;
        let reencoded = URL_SAFE.encode(&tampered);
        let result = decode_payload(&reencoded, &server_sk, &manager_pk);
        assert_eq!(result.unwrap_err(), CodecError::Authentication);
    }
}

#[test]
fn wrong_key_pair_fails_authentication() {
    let (server_pk, server_sk, manager_pk, _manager_sk) = key_values();
    let (rogue_server_pk, _rogue_server_sk, _rogue_manager_pk, rogue_manager_sk) = key_values();
    // Sealed for someone else entirely: the configured server cannot open it.
    let envelope = encode_payload("{\"secret\":\"world\"}", &rogue_manager_sk, &rogue_server_pk);
    let result = decode_payload(&envelope, &server_sk, &manager_pk);
    assert_eq!(result.unwrap_err(), CodecError::Authentication);
    // Sealed to the right server but by an unexpected sender.
    let envelope2 = encode_payload("{\"secret\":\"world\"}", &rogue_manager_sk, &server_pk);
    let result2 = decode_payload(&envelope2, &server_sk, &manager_pk);
    assert_eq!(result2.unwrap_err(), CodecError::Authentication);
}

#[test]
fn short_payloads_fail_format() {
    let (_server_pk, server_sk, manager_pk, _manager_sk) = key_values();
    for len in 0..24usize {
        let payload = URL_SAFE.encode(vec![7u8; len]);
        let result = decode_payload(&payload, &server_sk, &manager_pk);
        assert_eq!(result.unwrap_err(), CodecError::Format);
    }
}

#[test]
fn invalid_base64_fails_decode() {
    let (_server_pk, server_sk, manager_pk, _manager_sk) = key_values();
    let result = decode_payload("this is !!! not ??? base64", &server_sk, &manager_pk);
    assert_eq!(result.unwrap_err(), CodecError::Decode);
}

#[test]
fn non_utf8_plaintext_fails_encoding() {
    sodiumoxide::init().ok();
    let (server_pk, server_sk) = box_::gen_keypair();
    let (manager_pk, manager_sk) = box_::gen_keypair();
    let nonce = box_::gen_nonce();
    let ciphertext = box_::seal(&[0xff, 0xc3, 0x28], &nonce, &server_pk, &manager_sk);
    let mut full = nonce.0.to_vec();
    full.extend_from_slice(&ciphertext);
    let payload = URL_SAFE.encode(&full);
    let server_sk_val = SecretKeyValue::from_str(&URL_SAFE.encode(server_sk)).unwrap();
    let manager_pk_val = PublicKeyValue::from_str(&URL_SAFE.encode(manager_pk)).unwrap();
    let result = decode_payload(&payload, &server_sk_val, &manager_pk_val);
    assert_eq!(result.unwrap_err(), CodecError::Encoding);
}

#[test]
fn key_from_str_rejects_bad_text() {
    assert!(SecretKeyValue::from_str("!!! not base64 !!!").is_err());
    assert!(SecretKeyValue::from_str(&URL_SAFE.encode([1u8; 31])).is_err());
    assert!(SecretKeyValue::from_str(&URL_SAFE.encode([1u8; 33])).is_err());
    assert!(SecretKeyValue::from_str(&URL_SAFE.encode([1u8; 32])).is_ok());
    assert!(PublicKeyValue::from_str(&URL_SAFE.encode([2u8; 32])).is_ok());
}
