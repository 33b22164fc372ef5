use base64::Engine;
use license_secret_agent::crypto::CryptoManager;
use license_secret_agent::rotation::{parse_rotation_response, RotationManager};
use license_secret_agent::secret::SecretManager;
use license_secret_agent::tpm::TpmManager;
use license_secret_agent::types::{RotationSource, SecretState};

const T_NOW: i64 = 1735689600; // 2025-01-01T00:00:00Z

fn fresh_manager() -> SecretManager {
    SecretManager::new(TpmManager::new(false, "rotation-seed"))
}

fn server_response(crypto: &CryptoManager, version: u64, key: &[u8; 32]) -> Vec<u8> {
    let envelope = crypto.encrypt_oaep(key, None).unwrap();
    let b64 = base64::engine::general_purpose::STANDARD.encode(&envelope);
    format!(
        "{{\"new_secret_encrypted\":\"{}\",\"version\":{},\"valid_from\":\"2025-01-01T00:00:00Z\",\"valid_until\":\"2025-01-31T00:00:00Z\",\"grace_until\":\"2025-02-07T00:00:00Z\",\"signature\":\"c2ln\"}}",
        b64, version
    )
    .into_bytes()
}

#[test]
fn happy_rotation_installs_version_one() {
    let (private_key, public_key) = CryptoManager::generate_keys().unwrap();
    let crypto = CryptoManager::new(private_key, public_key);
    let mut store = fresh_manager();
    let rotation = RotationManager::new("agent-1".to_string(), 3600);

    let key = [0x42u8; 32];
    let body = server_response(&crypto, 1, &key);
    let response = parse_rotation_response(&body).unwrap();
    assert_eq!(response.version, 1);
    assert_eq!(response.valid_from, 1735689600);
    assert_eq!(response.grace_until, 1738886400);

    let installed = rotation
        .install_rotation(&mut store, &crypto, &response, false, T_NOW)
        .unwrap();
    assert_eq!(installed, 1);
    assert_eq!(store.active_version(), Some(1));
    let secret = store.get_secret(1, T_NOW + 5).unwrap();
    assert_eq!(secret.data, key.to_vec());
    assert_eq!(secret.metadata.rotation_source, RotationSource::Automatic);
    // the state file holds exactly one entry
    let snapshot = String::from_utf8(store.save_state(T_NOW).unwrap()).unwrap();
    assert_eq!(snapshot.matches("\"state\":").count(), 1);
}

#[test]
fn rollover_to_version_two_leaves_one_in_grace() {
    let (private_key, public_key) = CryptoManager::generate_keys().unwrap();
    let crypto = CryptoManager::new(private_key, public_key);
    let mut store = fresh_manager();
    let rotation = RotationManager::new("agent-1".to_string(), 3600);

    let r1 = parse_rotation_response(&server_response(&crypto, 1, &[1u8; 32])).unwrap();
    rotation
        .install_rotation(&mut store, &crypto, &r1, false, T_NOW)
        .unwrap();
    let r2 = parse_rotation_response(&server_response(&crypto, 2, &[2u8; 32])).unwrap();
    rotation
        .install_rotation(&mut store, &crypto, &r2, false, T_NOW + 100)
        .unwrap();

    assert_eq!(store.active_version(), Some(2));
    let old = store.get_metadata(1).unwrap();
    assert_eq!(old.state, SecretState::Grace);
    assert_eq!(old.grace_until, Some(1738886400));
}

#[test]
fn concurrent_rotation_guard_admits_one() {
    let mut rotation = RotationManager::new("agent-1".to_string(), 3600);
    assert!(rotation.try_begin_rotation().is_ok());
    // a second caller is refused while the first holds the flag
    let err = rotation.try_begin_rotation().unwrap_err();
    assert!(matches!(
        err,
        license_secret_agent::types::AgentError::RotationFailed(_)
    ));
    rotation.end_rotation();
    assert!(rotation.try_begin_rotation().is_ok());
}

#[test]
fn rotation_needed_tracks_threshold_and_absence() {
    let rotation = RotationManager::new("agent-1".to_string(), 3600);
    let mut store = fresh_manager();
    assert!(rotation.check_rotation_needed(&store, T_NOW));

    let (private_key, public_key) = CryptoManager::generate_keys().unwrap();
    let crypto = CryptoManager::new(private_key, public_key);
    let r1 = parse_rotation_response(&server_response(&crypto, 1, &[1u8; 32])).unwrap();
    rotation
        .install_rotation(&mut store, &crypto, &r1, false, T_NOW)
        .unwrap();
    // plenty of lifetime left
    assert!(!rotation.check_rotation_needed(&store, T_NOW));
    // under an hour before valid_until
    assert!(rotation.check_rotation_needed(&store, 1738281600 - 1800));
}

#[test]
fn retry_policy_and_backoff() {
    let rotation = RotationManager::new("agent-1".to_string(), 3600);
    let net = license_secret_agent::types::AgentError::NetworkError("down".to_string());
    let fatal = license_secret_agent::types::AgentError::CryptoError("bad".to_string());
    assert!(rotation.should_retry(&net, 0));
    assert!(rotation.should_retry(&net, 1));
    assert!(!rotation.should_retry(&net, 2)); // retries exhausted
    assert!(!rotation.should_retry(&fatal, 0)); // non-retryable kind
    assert_eq!(rotation.retry_delay(0), 1);
    assert_eq!(rotation.retry_delay(1), 2);
    assert_eq!(rotation.retry_delay(2), 4);
}

#[test]
fn signing_payload_concatenates_parts() {
    let payload = license_secret_agent::rotation::build_signing_payload(
        "agent-1",
        7,
        1735689600,
        &[0xab, 0xcd],
    );
    assert_eq!(payload, b"agent-171735689600abcd".to_vec());
}

#[test]
fn wrong_length_envelope_is_rejected() {
    let (private_key, public_key) = CryptoManager::generate_keys().unwrap();
    let crypto = CryptoManager::new(private_key, public_key);
    let mut store = fresh_manager();
    let rotation = RotationManager::new("agent-1".to_string(), 3600);

    // a 16-byte secret is not a valid AEAD key for the validator
    let envelope = crypto.encrypt_oaep(&[9u8; 16], None).unwrap();
    let b64 = base64::engine::general_purpose::STANDARD.encode(&envelope);
    let body = format!(
        "{{\"new_secret_encrypted\":\"{}\",\"version\":1,\"valid_from\":\"2025-01-01T00:00:00Z\",\"valid_until\":\"2025-01-31T00:00:00Z\",\"grace_until\":\"2025-02-07T00:00:00Z\",\"signature\":\"c2ln\"}}",
        b64
    );
    let response = parse_rotation_response(body.as_bytes()).unwrap();
    assert!(rotation
        .install_rotation(&mut store, &crypto, &response, false, T_NOW)
        .is_err());
    assert_eq!(store.active_version(), None);
}

#[test]
fn server_signature_is_verified_when_pinned() {
    let (agent_priv, agent_pub) = CryptoManager::generate_keys().unwrap();
    let agent = CryptoManager::new(agent_priv, agent_pub);
    let (server_priv, server_pub) = CryptoManager::generate_keys().unwrap();
    let server = CryptoManager::new(server_priv, server_pub.clone());
    let rotation = RotationManager::new("agent-1".to_string(), 3600);

    let body = server_response(&agent, 1, &[5u8; 32]);
    let mut response = parse_rotation_response(&body).unwrap();
    // the server signs exactly the canonical payload bytes
    let payload =
        license_secret_agent::rotation::render_response_payload(&response).unwrap();
    let signature = server.sign_pss(&payload).unwrap();
    response.signature = base64::engine::general_purpose::STANDARD
        .encode(&signature)
        .into_bytes();
    assert!(rotation.verify_response(&server_pub, &response).is_ok());

    // a tampered response no longer verifies
    let mut tampered_body = server_response(&agent, 2, &[6u8; 32]);
    let mut tampered = parse_rotation_response(&tampered_body).unwrap();
    tampered.signature = response.signature.clone();
    assert!(rotation.verify_response(&server_pub, &tampered).is_err());
    // and a non-base64 signature is refused outright
    response.signature = b"!!not-base64!!".to_vec();
    assert!(rotation.verify_response(&server_pub, &response).is_err());
    let _ = &mut tampered_body;
}
