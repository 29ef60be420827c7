use base64::engine::general_purpose::URL_SAFE;
use base64::Engine;
use sodiumoxide::crypto::box_;
use unsealer::base64key::{PublicKeyValue, SecretKeyValue};
use unsealer::codec::encode_payload;
use unsealer::envmap::json_to_env;
use unsealer::gateway::{probe, GatewayState, ShutdownFlag, UnsealError};
use unsealer::get_version;

fn key_values() -> (PublicKeyValue, SecretKeyValue, PublicKeyValue, SecretKeyValue) {
    sodiumoxide::init().ok();
    let (server_pk, server_sk) = box_::gen_keypair();
    let (manager_pk, manager_sk) = box_::gen_keypair();
    (
        PublicKeyValue::from_str(&URL_SAFE.encode(server_pk)).unwrap(),
        SecretKeyValue::from_str(&URL_SAFE.encode(server_sk)).unwrap(),
        PublicKeyValue::from_str(&URL_SAFE.encode(manager_pk)).unwrap(),
        SecretKeyValue::from_str(&URL_SAFE.encode(manager_sk)).unwrap(),
    )
}

#[test]
fn test_init_handler_success() {
    let (server_pk, server_sk, manager_pk, manager_sk) = key_values();
    let mut state = GatewayState::new(server_sk, manager_pk);

    let secret_message = "{\"api_key\":\"secret_value\"}";
    let encrypted_config = encode_payload(secret_message, &manager_sk, &server_pk);

    let result = state.attempt_unseal(&encrypted_config);
    assert!(result.is_ok());
    assert_eq!(result.unwrap(), "Service unsealed and started.");
    assert_eq!(state.take_config().as_deref(), Some(secret_message));
}

#[test]
fn test_init_handler_decryption_failure() {
    let (_server_pk, server_sk, manager_pk, _manager_sk) = key_values();
    let (rogue_server_pk, _a, _b, rogue_manager_sk) = key_values();

    let mut state = GatewayState::new(server_sk, manager_pk);
    let secret_message = "{\"api_key\":\"secret_value\"}";
    // Encrypt with a key the server isn't expecting for the manager, or for itself.
    let encrypted_config = encode_payload(secret_message, &rogue_manager_sk, &rogue_server_pk);

    let result = state.attempt_unseal(&encrypted_config);
    assert!(result.is_err());
    if let Err(e) = result {
        assert_eq!(e.http_status(), 422);
        assert_eq!(e.message(), "Decryption failed");
    } else {
        panic!("Expected an error result");
    }
    assert!(!state.is_unsealed());
    assert!(state.take_config().is_none());
}

#[test]
fn test_init_handler_invalid_payload_short() {
    let (_server_pk, server_sk, manager_pk, _manager_sk) = key_values();
    let mut state = GatewayState::new(server_sk, manager_pk);

    // Nonce alone is typically 24 bytes. This is too short.
    let short_payload = URL_SAFE.encode("short");
    let result = state.attempt_unseal(&short_payload);

    assert!(result.is_err());
    if let Err(e) = result {
        assert_eq!(e.http_status(), 400);
        let message = e.message();
        assert!(
            message.contains("Invalid encrypted payload") || message.contains("Payload too short")
        );
    } else {
        panic!("Expected an error result");
    }
    assert!(!state.is_unsealed());
}

#[test]
fn unseal_happens_exactly_once() {
    let (server_pk, server_sk, manager_pk, manager_sk) = key_values();
    let mut state = GatewayState::new(server_sk, manager_pk);

    let first = encode_payload("{\"secret\":\"world\"}", &manager_sk, &server_pk);
    let second = encode_payload("{\"secret\":\"other\"}", &manager_sk, &server_pk);

    assert!(state.attempt_unseal(&first).is_ok());
    assert!(state.is_unsealed());

    // A second attempt, even with a valid envelope, is rejected and alters nothing.
    let again = state.attempt_unseal(&second);
    assert_eq!(again.unwrap_err(), UnsealError::AlreadyUnsealed);
    let rejected = state.attempt_unseal("garbage");
    assert_eq!(rejected.unwrap_err(), UnsealError::AlreadyUnsealed);

    assert_eq!(state.take_config().as_deref(), Some("{\"secret\":\"world\"}"));
}

#[test]
fn scenario_seal_open_and_derive_environment() {
    let (server_pk, server_sk, manager_pk, manager_sk) = key_values();
    let mut state = GatewayState::new(server_sk, manager_pk);

    let envelope = encode_payload("{\"secret\":\"world\"}", &manager_sk, &server_pk);
    assert!(state.attempt_unseal(&envelope).is_ok());
    let config = state.take_config().unwrap();
    assert_eq!(config, "{\"secret\":\"world\"}");

    let env = json_to_env(&config).unwrap();
    let entries = env.entries();
    assert_eq!(entries.len(), 1);
    assert_eq!(entries[0].0, "SECRET");
    assert_eq!(entries[0].1, "world");
}

#[test]
fn scenario_ten_byte_payload_is_bad_request() {
    let (_server_pk, server_sk, manager_pk, _manager_sk) = key_values();
    let mut state = GatewayState::new(server_sk, manager_pk);

    let payload = URL_SAFE.encode([9u8; 10]);
    let result = state.attempt_unseal(&payload);
    assert_eq!(result.unwrap_err().http_status(), 400);
    assert!(!state.is_unsealed());
}

#[test]
fn probe_reports_status_and_version() {
    assert_eq!(get_version(), "No Version");
    assert_eq!(probe(), format!("Ok {}", get_version()));
    assert_eq!(probe(), "Ok No Version");
}

#[test]
fn shutdown_flag_fires_exactly_once() {
    let mut flag = ShutdownFlag::new();
    assert!(flag.fire());
    assert!(!flag.fire());
    assert!(!flag.fire());
}
