use aes_gcm::aead::{Aead, KeyInit};
use base64::Engine;
use license_secret_agent::license::LicenseValidator;
use license_secret_agent::secret::SecretManager;
use license_secret_agent::tpm::TpmManager;
use license_secret_agent::types::{RotationSource, Secret, SecretMetadata, SecretState};

const T_FROM: i64 = 1735689600; // 2025-01-01T00:00:00Z
const T_UNTIL: i64 = 1738281600; // 2025-01-31T00:00:00Z
const T_GRACE: i64 = 1738886400; // 2025-02-07T00:00:00Z

fn meta(version: u64) -> SecretMetadata {
    SecretMetadata {
        version,
        state: SecretState::Active,
        valid_from: T_FROM,
        valid_until: T_UNTIL,
        grace_until: Some(T_GRACE),
        created_at: T_FROM,
        last_used_at: None,
        rotation_source: RotationSource::Automatic,
        invalidation_reason: None,
    }
}

fn manager_with_key(version: u64, key: &[u8; 32]) -> SecretManager {
    let mut m = SecretManager::new(TpmManager::new(false, "validator-seed"));
    m.store_secret(Secret { data: key.to_vec(), metadata: meta(version) }, version, T_FROM)
        .unwrap();
    m
}

/// Mints a token the way the issuing server does: version header, random
/// nonce, AES-256-GCM ciphertext with its tag, all base64.
fn mint_token(version: u64, key: &[u8; 32], plaintext: &[u8]) -> Vec<u8> {
    let cipher = aes_gcm::Aes256Gcm::new(aes_gcm::Key::<aes_gcm::Aes256Gcm>::from_slice(key));
    let nonce = [7u8; 12];
    let ct = cipher
        .encrypt(aes_gcm::Nonce::from_slice(&nonce), plaintext)
        .unwrap();
    let mut raw = version.to_be_bytes().to_vec();
    raw.extend_from_slice(&nonce);
    raw.extend_from_slice(&ct);
    base64::engine::general_purpose::STANDARD
        .encode(&raw)
        .into_bytes()
}

fn license_json(expires: &str) -> Vec<u8> {
    format!(
        "{{\"license_id\":\"lic-1\",\"customer_id\":\"cust-9\",\"features\":[\"a\",\"b\"],\"expires_at\":\"{}\",\"metadata\":{{\"tier\":\"gold\"}},\"issued_at\":\"2025-01-01T00:00:00Z\"}}",
        expires
    )
    .into_bytes()
}

#[test]
fn valid_token_passes_with_features_and_metadata() {
    let key = [0x11u8; 32];
    let m = manager_with_key(1, &key);
    let token = mint_token(1, &key, &license_json("2025-01-20T00:00:00Z"));
    let v = LicenseValidator::new();
    let res = v.validate(&m, &token, T_FROM + 60).unwrap();
    assert!(res.valid);
    assert_eq!(res.features, vec!["a".to_string(), "b".to_string()]);
    assert_eq!(
        res.metadata,
        vec![("tier".to_string(), "gold".to_string())]
    );
    assert_eq!(res.expires_at, Some(1737331200)); // 2025-01-20T00:00:00Z
    assert!(res.error.is_none());
}

#[test]
fn expired_license_fails() {
    let key = [0x22u8; 32];
    let m = manager_with_key(1, &key);
    let token = mint_token(1, &key, &license_json("2025-01-02T00:00:00Z"));
    let v = LicenseValidator::new();
    // one second past the license expiry
    assert!(v.validate(&m, &token, 1735776001).is_err());
}

#[test]
fn unknown_version_and_bad_tag_fail_uniformly() {
    let key = [0x33u8; 32];
    let m = manager_with_key(1, &key);
    let v = LicenseValidator::new();

    let unknown = mint_token(9, &key, &license_json("2025-01-20T00:00:00Z"));
    let e1 = match v.validate(&m, &unknown, T_FROM + 60) {
        Err(e) => e,
        Ok(_) => panic!("unknown version accepted"),
    };

    let mut tampered = mint_token(1, &key, &license_json("2025-01-20T00:00:00Z"));
    // corrupt the base64 payload in a way that still decodes
    let raw = base64::engine::general_purpose::STANDARD
        .decode(&tampered)
        .unwrap();
    let mut raw2 = raw.clone();
    let n = raw2.len();
    raw2[n - 1] ^= 0x01;
    tampered = base64::engine::general_purpose::STANDARD
        .encode(&raw2)
        .into_bytes();
    let e2 = match v.validate(&m, &tampered, T_FROM + 60) {
        Err(e) => e,
        Ok(_) => panic!("tampered token accepted"),
    };

    // both failures surface as the same uniform kind
    assert!(matches!(
        e1,
        license_secret_agent::types::AgentError::LicenseValidationFailed(_)
    ));
    assert!(matches!(
        e2,
        license_secret_agent::types::AgentError::LicenseValidationFailed(_)
    ));
}

#[test]
fn token_under_invalidated_version_fails_while_active_still_works() {
    let key1 = [0x44u8; 32];
    let key2 = [0x55u8; 32];
    let mut m = SecretManager::new(TpmManager::new(false, "validator-seed"));
    m.store_secret(Secret { data: key1.to_vec(), metadata: meta(1) }, 1, T_FROM)
        .unwrap();
    let mut m2 = meta(2);
    m2.grace_until = Some(T_GRACE + 2_419_200);
    m.store_secret(Secret { data: key2.to_vec(), metadata: m2 }, 2, T_FROM)
        .unwrap();
    // version 1 is GRACE now; a token under it still validates
    let v = LicenseValidator::new();
    let t1 = mint_token(1, &key1, &license_json("2025-01-20T00:00:00Z"));
    let t2 = mint_token(2, &key2, &license_json("2025-01-20T00:00:00Z"));
    assert!(v.validate(&m, &t1, T_FROM + 60).unwrap().valid);
    // the operator invalidates version 1
    m.invalidate(1, Some("leaked".to_string())).unwrap();
    assert!(v.validate(&m, &t1, T_FROM + 60).is_err());
    assert!(v.validate(&m, &t2, T_FROM + 60).unwrap().valid);
}

#[test]
fn grace_token_stops_validating_after_grace_deadline() {
    let key1 = [0x66u8; 32];
    let key2 = [0x77u8; 32];
    let mut m = SecretManager::new(TpmManager::new(false, "validator-seed"));
    m.store_secret(Secret { data: key1.to_vec(), metadata: meta(1) }, 1, T_FROM)
        .unwrap();
    let mut m2 = meta(2);
    m2.valid_until = T_GRACE + 5_000_000;
    m2.grace_until = Some(T_GRACE + 6_000_000);
    m.store_secret(Secret { data: key2.to_vec(), metadata: m2 }, 2, T_FROM)
        .unwrap();
    let v = LicenseValidator::new();
    let t1 = mint_token(1, &key1, &license_json("2025-03-01T00:00:00Z"));
    // inside version 1's grace window
    assert!(v.validate(&m, &t1, T_GRACE - 10).unwrap().valid);
    // past it
    assert!(v.validate(&m, &t1, T_GRACE + 10).is_err());
}

#[test]
fn short_and_undecodable_tokens_fail() {
    let key = [0x01u8; 32];
    let m = manager_with_key(1, &key);
    let v = LicenseValidator::new();
    assert!(v.validate(&m, b"@@@not-base64@@@", T_FROM).is_err());
    let short = base64::engine::general_purpose::STANDARD
        .encode(b"tiny")
        .into_bytes();
    assert!(v.validate(&m, &short, T_FROM).is_err());
}
