use license_secret_agent::crypto::{constant_time_compare, CryptoManager};

#[test]
fn test_crypto_manager_generation() {
    let (private_key, public_key) = CryptoManager::generate_keys().unwrap();
    let crypto = CryptoManager::new(private_key, public_key);

    let data = b"test data";
    let encrypted = crypto.encrypt_oaep(data, None).unwrap();
    let decrypted = crypto.decrypt_oaep(&encrypted, None).unwrap();

    assert_eq!(data, decrypted.as_slice());
}

#[test]
fn test_crypto_sign_verify() {
    let (private_key, public_key) = CryptoManager::generate_keys().unwrap();
    let crypto = CryptoManager::new(private_key, public_key);

    let data = b"test data to sign";
    let signature = crypto.sign_pss(data).unwrap();
    let verified = crypto.verify_pss(data, &signature).unwrap();

    assert!(verified);
}

#[test]
fn test_constant_time_compare() {
    assert!(constant_time_compare(b"test", b"test"));
    assert!(!constant_time_compare(b"test", b"test2"));
    assert!(!constant_time_compare(b"test", b""));
}

#[test]
fn test_sign_verify_rejects_other_message() {
    let (private_key, public_key) = CryptoManager::generate_keys().unwrap();
    let crypto = CryptoManager::new(private_key, public_key);

    let signature = crypto.sign_pss(b"message one").unwrap();
    assert!(!crypto.verify_pss(b"message two", &signature).unwrap());
}

#[test]
fn test_oaep_rejects_corrupted_ciphertext() {
    let (private_key, public_key) = CryptoManager::generate_keys().unwrap();
    let crypto = CryptoManager::new(private_key, public_key);

    let mut encrypted = crypto.encrypt_oaep(b"secret material", None).unwrap();
    encrypted[5] ^= 0xff;
    assert!(crypto.decrypt_oaep(&encrypted, None).is_err());
}
