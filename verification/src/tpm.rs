//! Sealing provider: binds secret bytes to this host.
//!
//! Two variants exist in the design: a hardware-bound one using a platform
//! security module, and a software fallback using AES-256-GCM under a key
//! derived from a configured seed. This build links no hardware backend, so
//! the provider always runs the software variant and truthfully reports
//! `available = false` so operators can see the downgrade.
//!
//! A sealed blob is a 12-byte random nonce followed by the AES-256-GCM
//! ciphertext-with-tag of the key bytes.

use vstd::prelude::*;
use vstd::string::StringSliceAdditionalSpecFns;
use crate::types::{AgentError, TpmStatus};
use sha2::{Digest, Sha256};
use rand::Rng;
use aes_gcm::aead::{Aead, KeyInit};

verus! {

/// What AES-256-GCM decryption returns for a key, nonce and
/// ciphertext-with-tag; `None` when authentication fails. The result depends
/// on those three inputs alone.
pub uninterp spec fn aead_open(key: Seq<u8>, nonce: Seq<u8>, ct: Seq<u8>) -> Option<Seq<u8>>;

/// What SHA-256 returns for the given input; a 32-byte digest that depends
/// on the input alone.
pub uninterp spec fn sha256_of(data: Seq<u8>) -> Seq<u8>;

/// Relies on sha2::Sha256: hashes the input to a 32-byte digest that is a
/// function of the input alone.
#[verifier::external_body]
pub fn sha256(data: &[u8]) -> (r: Vec<u8>)
    ensures
        r@ == sha256_of(data@),
        r@.len() == 32,
{
    let mut hasher = Sha256::new();
    hasher.update(data);
    hasher.finalize().to_vec()
}

/// Relies on rand::thread_rng / Rng::fill: fills a buffer with random bytes.
/// Nothing is promised of the contents, only the length.
#[verifier::external_body]
pub fn generate_nonce(size: usize) -> (r: Vec<u8>)
    ensures
        r@.len() == size,
{
    let mut nonce = vec![0u8; size];
    rand::thread_rng().fill(&mut nonce[..]);
    nonce
}

/// Longest plaintext AES-GCM encrypts: its P_MAX, 2^36 bytes.
pub const AEAD_P_MAX: u64 = 68719476736;

/// Relies on aes_gcm::Aes256Gcm::encrypt (postfix tag): the ciphertext is 16
/// bytes longer than the plaintext and decrypting it under the same key and
/// nonce returns the plaintext. Encryption refuses only plaintexts beyond
/// the AES-GCM length cap.
#[verifier::external_body]
fn aead_encrypt(key: &[u8], nonce: &[u8], plaintext: &[u8]) -> (r: Option<Vec<u8>>)
    requires
        key@.len() == 32,
        nonce@.len() == 12,
    ensures
        r matches Some(ct) ==> ct@.len() == plaintext@.len() + 16 && aead_open(
            key@,
            nonce@,
            ct@,
        ) == Some(plaintext@),
        plaintext@.len() <= AEAD_P_MAX ==> r is Some,
{
    let cipher = aes_gcm::Aes256Gcm::new(aes_gcm::Key::<aes_gcm::Aes256Gcm>::from_slice(key));
    match cipher.encrypt(aes_gcm::Nonce::from_slice(nonce), plaintext) {
        Ok(ct) => Some(ct),
        Err(_) => None,
    }
}

/// Relies on aes_gcm::Aes256Gcm::decrypt: returns the plaintext exactly when
/// key, nonce and ciphertext correspond (the function named `aead_open`).
#[verifier::external_body]
pub(crate) fn aead_decrypt(key: &[u8], nonce: &[u8], ct: &[u8]) -> (r: Option<Vec<u8>>)
    requires
        key@.len() == 32,
        nonce@.len() == 12,
    ensures
        match r {
            Some(pt) => aead_open(key@, nonce@, ct@) == Some(pt@),
            None => aead_open(key@, nonce@, ct@) is None,
        },
{
    let cipher = aes_gcm::Aes256Gcm::new(aes_gcm::Key::<aes_gcm::Aes256Gcm>::from_slice(key));
    match cipher.decrypt(aes_gcm::Nonce::from_slice(nonce), ct) {
        Ok(pt) => Some(pt),
        Err(_) => None,
    }
}

/// Overwrites every byte with zero before the buffer is released.
pub fn wipe(data: &mut Vec<u8>)
    ensures
        final(data)@.len() == old(data)@.len(),
        forall|i: int| 0 <= i < final(data)@.len() ==> final(data)@[i] == 0u8,
{
    let mut i: usize = 0;
    while i < data.len()
        invariant
            i <= data@.len(),
            data@.len() == old(data)@.len(),
            forall|k: int| 0 <= k < i ==> data@[k] == 0u8,
        decreases data@.len() - i,
    {
        data.set(i, 0);
        i += 1;
    }
}

/// What a sealed blob opens to under `key`: the plaintext if the blob is a
/// nonce-prefixed AES-256-GCM message under that key.
pub open spec fn unsealed(key: Seq<u8>, blob: Seq<u8>) -> Option<Seq<u8>> {
    if blob.len() >= 12 {
        aead_open(key, blob.subrange(0, 12), blob.skip(12))
    } else {
        None
    }
}

/// The sealing provider.
pub struct TpmManager {
    hardware: bool,
    fallback_key: Vec<u8>,
}

impl TpmManager {
    /// The provider always carries a 32-byte fallback key; this build has no
    /// hardware backend.
    pub closed spec fn wf(&self) -> bool {
        self.fallback_key@.len() == 32 && !self.hardware
    }

    /// The sealing key in use.
    pub closed spec fn key(&self) -> Seq<u8> {
        self.fallback_key@
    }

    pub closed spec fn spec_available(&self) -> bool {
        self.hardware
    }

    /// Builds the provider. The hardware variant is not linked into this
    /// build, so even with `enabled` the software fallback is chosen and the
    /// provider reports itself unavailable. The fallback key is derived from
    /// the configured seed by SHA-256.
    pub fn new(enabled: bool, fallback_seed: &str) -> (r: TpmManager)
        ensures
            r.wf(),
            !r.spec_available(),
            r.key() == sha256_of(fallback_seed.spec_bytes()),
    {
        let _ = enabled;
        let key = sha256(fallback_seed.as_bytes());
        TpmManager { hardware: false, fallback_key: key }
    }

    /// Whether the hardware variant is in use.
    pub fn is_available(&self) -> (r: bool)
        ensures
            r == self.spec_available(),
    {
        self.hardware
    }

    /// Seals `data`: returns a blob that `decrypt` maps back to `data`.
    /// Success is owed up to the AEAD length cap.
    pub fn encrypt(&self, data: &[u8]) -> (r: Result<Vec<u8>, AgentError>)
        requires
            self.wf(),
        ensures
            r matches Ok(blob) ==> unsealed(self.key(), blob@) == Some(data@) && blob@.len()
                == data@.len() + 28,
            data@.len() <= AEAD_P_MAX ==> r is Ok,
            r is Err ==> (r matches Err(e) && e is CryptoError),
    {
        let nonce = generate_nonce(12);
        match aead_encrypt(self.fallback_key.as_slice(), nonce.as_slice(), data) {
            Some(ct) => {
                let ghost nonce_view = nonce@;
                let ghost ct_view = ct@;
                let mut ct2 = ct;
                let mut blob = nonce;
                blob.append(&mut ct2);
                proof {
                    assert(blob@.subrange(0, 12) =~= nonce_view);
                    assert(blob@.skip(12) =~= ct_view);
                }
                Ok(blob)
            },
            None => Err(AgentError::CryptoError("Encryption failed".to_owned())),
        }
    }

    /// Unseals a blob: succeeds exactly when the blob is a well-formed
    /// sealed message under this provider's key.
    pub fn decrypt(&self, encrypted: &[u8]) -> (r: Result<Vec<u8>, AgentError>)
        requires
            self.wf(),
        ensures
            r matches Ok(pt) ==> unsealed(self.key(), encrypted@) == Some(pt@),
            r is Err ==> unsealed(self.key(), encrypted@) is None,
            r is Err ==> (r matches Err(e) && e is CryptoError),
    {
        if encrypted.len() < 12 {
            return Err(AgentError::CryptoError("Invalid encrypted data".to_owned()));
        }
        let nonce: &[u8] = &encrypted[0..12];
        let ct: &[u8] = &encrypted[12..encrypted.len()];
        proof {
            assert(nonce@ =~= encrypted@.subrange(0, 12));
            assert(ct@ =~= encrypted@.skip(12));
        }
        match aead_decrypt(self.fallback_key.as_slice(), nonce, ct) {
            Some(pt) => Ok(pt),
            None => Err(AgentError::CryptoError("Decryption failed".to_owned())),
        }
    }

    /// Writing to a platform NV index needs the hardware variant, which this
    /// build does not link; the call always reports the module unavailable.
    pub fn nv_write(&self, index: u32, data: &[u8]) -> (r: Result<(), AgentError>)
        ensures
            (r matches Err(e) && e is TpmError),
    {
        let _ = index;
        let _ = data;
        Err(AgentError::TpmError("TPM not available".to_owned()))
    }

    /// Reading a platform NV index needs the hardware variant, which this
    /// build does not link; the call always reports the module unavailable.
    pub fn nv_read(&self, index: u32) -> (r: Result<Vec<u8>, AgentError>)
        ensures
            (r matches Err(e) && e is TpmError),
    {
        let _ = index;
        Err(AgentError::TpmError("TPM not available".to_owned()))
    }

    /// Status for the management surface: truthfully reports the software
    /// fallback as unavailable hardware.
    pub fn get_status(&self) -> (r: TpmStatus)
        ensures
            r.available == self.spec_available(),
    {
        TpmStatus {
            available: self.hardware,
            version: None,
            manufacturer: None,
            firmware_version: None,
            keys_loaded: 0,
            nv_space_used: None,
        }
    }
}

} // verus!
