use license_secret_agent::secret::SecretManager;
use license_secret_agent::tpm::TpmManager;
use license_secret_agent::types::{
    RotationSource, Secret, SecretMetadata, SecretState,
};

// 2025-01-01T00:00:00Z, 2025-01-31T00:00:00Z, 2025-02-07T00:00:00Z
const T_FROM: i64 = 1735689600;
const T_UNTIL: i64 = 1738281600;
const T_GRACE: i64 = 1738886400;

fn meta(version: u64) -> SecretMetadata {
    SecretMetadata {
        version,
        state: SecretState::Active,
        valid_from: T_FROM,
        valid_until: T_UNTIL,
        grace_until: Some(T_GRACE),
        created_at: T_FROM,
        last_used_at: None,
        rotation_source: RotationSource::Automatic,
        invalidation_reason: None,
    }
}

fn key_bytes(fill: u8) -> Vec<u8> {
    vec![fill; 32]
}

fn fresh_manager() -> SecretManager {
    SecretManager::new(TpmManager::new(false, "unit-test-seed"))
}

#[test]
fn store_then_get_returns_key_bytes() {
    let mut m = fresh_manager();
    let secret = Secret { data: key_bytes(0xab), metadata: meta(1) };
    m.store_secret(secret, 1, T_FROM).unwrap();

    assert_eq!(m.active_version(), Some(1));
    let read = m.get_secret(1, T_FROM + 10).unwrap();
    assert_eq!(read.data, key_bytes(0xab));
    assert_eq!(read.metadata.version, 1);
    assert_eq!(read.metadata.state, SecretState::Active);
}

#[test]
fn rollover_demotes_old_version_to_grace() {
    let mut m = fresh_manager();
    m.store_secret(Secret { data: key_bytes(1), metadata: meta(1) }, 1, T_FROM).unwrap();
    let mut m2 = meta(2);
    m2.grace_until = Some(T_GRACE + 2_419_200); // 2025-03-07T00:00:00Z
    m.store_secret(Secret { data: key_bytes(2), metadata: m2 }, 2, T_FROM + 100).unwrap();

    assert_eq!(m.active_version(), Some(2));
    let old = m.get_metadata(1).unwrap();
    assert_eq!(old.state, SecretState::Grace);
    // the demoted version keeps its own recorded grace deadline
    assert_eq!(old.grace_until, Some(T_GRACE));
    // at most one ACTIVE version
    let mut actives = 0;
    for v in m.list_versions() {
        if m.get_metadata(v).unwrap().state == SecretState::Active {
            actives += 1;
        }
    }
    assert_eq!(actives, 1);
}

#[test]
fn store_rejects_reused_and_stale_versions() {
    let mut m = fresh_manager();
    m.store_secret(Secret { data: key_bytes(7), metadata: meta(5) }, 5, T_FROM).unwrap();
    assert!(m.store_secret(Secret { data: key_bytes(8), metadata: meta(5) }, 5, T_FROM).is_err());
    assert!(m.store_secret(Secret { data: key_bytes(9), metadata: meta(3) }, 3, T_FROM).is_err());
    assert_eq!(m.active_version(), Some(5));
}

#[test]
fn get_unknown_version_is_not_found() {
    let m = fresh_manager();
    assert!(m.get_secret(42, T_FROM).is_err());
    assert!(m.get_active_secret(T_FROM).is_err());
}

#[test]
fn get_after_grace_deadline_is_expired() {
    let mut m = fresh_manager();
    m.store_secret(Secret { data: key_bytes(3), metadata: meta(1) }, 1, T_FROM).unwrap();
    // readable through the grace window...
    assert!(m.get_secret(1, T_GRACE).is_ok());
    // ...but not past it
    assert!(m.get_secret(1, T_GRACE + 1).is_err());
}

#[test]
fn invalidate_clears_active_pointer() {
    let mut m = fresh_manager();
    m.store_secret(Secret { data: key_bytes(4), metadata: meta(1) }, 1, T_FROM).unwrap();
    m.invalidate(1, Some("leaked".to_string())).unwrap();

    assert_eq!(m.active_version(), None);
    let record = m.get_metadata(1).unwrap();
    assert_eq!(record.state, SecretState::Invalid);
    assert_eq!(record.invalidation_reason.as_deref(), Some("leaked"));
    // INVALID is terminal: reads are rejected
    assert!(m.get_secret(1, T_FROM).is_err());
    // and it cannot be moved back to GRACE
    assert!(m.set_grace(1, T_GRACE).is_err());
}

#[test]
fn cleanup_retires_expired_grace_and_is_idempotent() {
    let mut m = fresh_manager();
    m.store_secret(Secret { data: key_bytes(1), metadata: meta(1) }, 1, T_FROM).unwrap();
    let mut v2 = meta(2);
    v2.grace_until = Some(T_GRACE + 2_419_200);
    m.store_secret(Secret { data: key_bytes(2), metadata: v2 }, 2, T_FROM).unwrap();
    // version 1 is now GRACE until T_GRACE; move past it
    let now = T_GRACE + 5;
    assert_eq!(m.cleanup_expired(now).unwrap(), 1);
    let record = m.get_metadata(1).unwrap();
    assert_eq!(record.state, SecretState::Invalid);
    assert_eq!(record.invalidation_reason.as_deref(), Some("Grace period expired"));

    // a second pass at the same instant changes nothing
    let before: Vec<_> = m
        .list_versions()
        .into_iter()
        .map(|v| {
            let r = m.get_metadata(v).unwrap();
            (r.version, r.state, r.grace_until, r.invalidation_reason.clone())
        })
        .collect();
    assert_eq!(m.cleanup_expired(now).unwrap(), 0);
    let after: Vec<_> = m
        .list_versions()
        .into_iter()
        .map(|v| {
            let r = m.get_metadata(v).unwrap();
            (r.version, r.state, r.grace_until, r.invalidation_reason.clone())
        })
        .collect();
    assert_eq!(before, after);
    assert_eq!(m.active_version(), Some(2));
}

#[test]
fn grace_window_is_always_consistent() {
    let mut m = fresh_manager();
    m.store_secret(Secret { data: key_bytes(1), metadata: meta(1) }, 1, T_FROM).unwrap();
    // a grace deadline inside the validity window is rejected
    assert!(m.set_grace(1, T_UNTIL).is_err());
    assert!(m.set_grace(1, T_UNTIL + 60).is_ok());
    let record = m.get_metadata(1).unwrap();
    let g = record.grace_until.unwrap();
    assert!(g > record.valid_until && g >= record.valid_from);
}

#[test]
fn save_and_load_round_trip() {
    let mut m = fresh_manager();
    m.store_secret(Secret { data: key_bytes(1), metadata: meta(1) }, 1, T_FROM).unwrap();
    let mut v2 = meta(2);
    v2.grace_until = Some(T_GRACE + 2_419_200);
    m.store_secret(Secret { data: key_bytes(2), metadata: v2 }, 2, T_FROM + 9).unwrap();
    m.invalidate(1, None).unwrap();

    let bytes = m.save_state(T_FROM + 50).unwrap();
    // timestamps travel as RFC 3339 text
    let text = String::from_utf8(bytes.clone()).unwrap();
    assert!(text.contains("2025-01-01T00:00:00Z"));

    let mut loaded = fresh_manager();
    loaded.load_state(&bytes).unwrap();
    assert_eq!(loaded.active_version(), m.active_version());
    assert_eq!(loaded.list_versions(), m.list_versions());
    for v in m.list_versions() {
        let a = m.get_metadata(v).unwrap();
        let b = loaded.get_metadata(v).unwrap();
        assert_eq!(a.version, b.version);
        assert_eq!(a.state, b.state);
        assert_eq!(a.valid_from, b.valid_from);
        assert_eq!(a.valid_until, b.valid_until);
        assert_eq!(a.grace_until, b.grace_until);
        assert_eq!(a.created_at, b.created_at);
        assert_eq!(a.last_used_at, b.last_used_at);
        assert_eq!(a.rotation_source, b.rotation_source);
        assert_eq!(a.invalidation_reason, b.invalidation_reason);
    }
}

#[test]
fn load_rejects_garbage_and_inconsistent_snapshots() {
    let mut m = fresh_manager();
    assert!(m.load_state(b"not json at all").is_err());
    assert!(m.load_state(b"{\"something\":1}").is_err());
}

#[test]
fn attached_blob_restores_reads_after_load() {
    let mut m = fresh_manager();
    m.store_secret(Secret { data: key_bytes(0x5c), metadata: meta(1) }, 1, T_FROM).unwrap();
    let bytes = m.save_state(T_FROM).unwrap();

    let mut loaded = fresh_manager();
    loaded.load_state(&bytes).unwrap();
    // without the sealed blob the version does not read back
    assert!(loaded.get_secret(1, T_FROM).is_err());
    // reseal the key under the same provider and attach it
    let provider = TpmManager::new(false, "unit-test-seed");
    let blob = provider.encrypt(&key_bytes(0x5c)).unwrap();
    assert!(loaded.attach_sealed(1, blob));
    assert_eq!(loaded.get_secret(1, T_FROM).unwrap().data, key_bytes(0x5c));
}
