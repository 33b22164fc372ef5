//! Byte-level cryptographic helpers.

use vstd::prelude::*;
use base64::Engine;
use rsa::pkcs1::{DecodeRsaPrivateKey, DecodeRsaPublicKey, EncodeRsaPrivateKey, EncodeRsaPublicKey};
use crate::types::{AgentError, AgentResult};

pub use crate::tpm::{generate_nonce, sha256};

verus! {

/// RSA key material handled by the rsa crate; opaque to the logic here.
#[verifier::external_type_specification]
#[verifier::external_body]
pub struct ExRsaPrivateKey(rsa::RsaPrivateKey);

#[verifier::external_type_specification]
#[verifier::external_body]
pub struct ExRsaPublicKey(rsa::RsaPublicKey);

/// The standard base64 digit for a 6-bit value.
pub open spec fn b64_digit(n: u8) -> u8 {
    if n < 26 {
        (65 + n) as u8
    } else if n < 52 {
        (71 + n) as u8
    } else if n < 62 {
        (n - 4) as u8
    } else if n == 62 {
        43u8
    } else {
        47u8
    }
}

/// Standard padded base64 of a byte sequence.
pub open spec fn b64_of(b: Seq<u8>) -> Seq<u8>
    decreases b.len(),
{
    if b.len() == 0 {
        Seq::empty()
    } else if b.len() == 1 {
        seq![b64_digit(b[0] / 4), b64_digit(((b[0] % 4) * 16) as u8), 61u8, 61u8]
    } else if b.len() == 2 {
        seq![
            b64_digit(b[0] / 4),
            b64_digit(((b[0] % 4) * 16 + b[1] / 16) as u8),
            b64_digit(((b[1] % 16) * 4) as u8),
            61u8,
        ]
    } else {
        seq![
            b64_digit(b[0] / 4),
            b64_digit(((b[0] % 4) * 16 + b[1] / 16) as u8),
            b64_digit(((b[1] % 16) * 4 + b[2] / 64) as u8),
            b64_digit((b[2] % 64) as u8),
        ] + b64_of(b.skip(3))
    }
}

/// Lowercase hex digit of a 4-bit value.
pub open spec fn hex_digit(n: u8) -> u8 {
    if n < 10 {
        (48 + n) as u8
    } else {
        (87 + n) as u8
    }
}

/// Lowercase hex of a byte sequence, two digits per byte.
pub open spec fn hex_of(b: Seq<u8>) -> Seq<u8>
    decreases b.len(),
{
    if b.len() == 0 {
        Seq::empty()
    } else {
        seq![hex_digit(b[0] / 16), hex_digit((b[0] % 16) as u8)] + hex_of(b.drop_first())
    }
}

/// What the STANDARD base64 decoder makes of the given bytes; `None` when
/// they are not a canonical encoding. A function of the bytes alone.
pub uninterp spec fn b64_val(s: Seq<u8>) -> Option<Seq<u8>>;

/// Relies on base64's STANDARD engine encode: the standard alphabet with
/// padding, exactly `b64_of`; the decoder maps the result back.
#[verifier::external_body]
pub fn b64_encode(data: &[u8]) -> (r: Vec<u8>)
    ensures
        r@ == b64_of(data@),
        b64_val(r@) == Some(data@),
{
    base64::engine::general_purpose::STANDARD.encode(data).into_bytes()
}

/// Relies on base64's STANDARD engine decode: strict, it accepts exactly
/// the canonical padded encodings (trailing bits and non-canonical padding
/// are rejected).
#[verifier::external_body]
pub fn b64_decode(data: &[u8]) -> (r: Option<Vec<u8>>)
    ensures
        match r {
            Some(v) => b64_val(data@) == Some(v@) && b64_of(v@) == data@,
            None => b64_val(data@) is None,
        },
{
    match base64::engine::general_purpose::STANDARD.decode(data) {
        Ok(v) => Some(v),
        Err(_) => None,
    }
}

/// Relies on hex::encode: two lowercase digits per byte, exactly `hex_of`.
#[verifier::external_body]
pub fn hex_encode(data: &[u8]) -> (r: Vec<u8>)
    ensures
        r@ == hex_of(data@),
{
    hex::encode(data).into_bytes()
}

/// Relies on rsa::RsaPrivateKey::new and RsaPublicKey::From: generates a
/// fresh RSA-2048 key pair. The keys are random; nothing is promised of
/// them.
#[verifier::external_body]
fn rsa_generate() -> (r: Option<(rsa::RsaPrivateKey, rsa::RsaPublicKey)>)
{
    let mut rng = rand::rngs::OsRng;
    match rsa::RsaPrivateKey::new(&mut rng, 2048) {
        Ok(private_key) => {
            let public_key = rsa::RsaPublicKey::from(&private_key);
            Some((private_key, public_key))
        },
        Err(_) => None,
    }
}

/// Relies on rsa::RsaPublicKey::encrypt with OAEP/SHA-256 padding. The
/// ciphertext is randomized; nothing is promised of it.
#[verifier::external_body]
fn rsa_encrypt_oaep(key: &rsa::RsaPublicKey, data: &[u8]) -> (r: Option<Vec<u8>>)
{
    let padding = rsa::Oaep::new::<sha2::Sha256>();
    let mut rng = rand::rngs::OsRng;
    match key.encrypt(&mut rng, padding, data) {
        Ok(ct) => Some(ct),
        Err(_) => None,
    }
}

/// Relies on rsa::RsaPrivateKey::decrypt with OAEP/SHA-256 padding.
/// Success and plaintext depend on the opaque key, so nothing more is
/// promised; callers check the plaintext themselves.
#[verifier::external_body]
fn rsa_decrypt_oaep(key: &rsa::RsaPrivateKey, ciphertext: &[u8]) -> (r: Option<Vec<u8>>)
{
    let padding = rsa::Oaep::new::<sha2::Sha256>();
    match key.decrypt(padding, ciphertext) {
        Ok(pt) => Some(pt),
        Err(_) => None,
    }
}

/// Relies on rsa::RsaPrivateKey::sign with PSS/SHA-256 padding over a
/// precomputed digest. The signature is randomized (salted); nothing is
/// promised of it.
#[verifier::external_body]
fn rsa_sign_pss(key: &rsa::RsaPrivateKey, digest: &[u8]) -> (r: Option<Vec<u8>>)
{
    let padding = rsa::Pss::new::<sha2::Sha256>();
    let mut rng = rand::rngs::OsRng;
    match key.sign_with_rng(&mut rng, padding, digest) {
        Ok(sig) => Some(sig),
        Err(_) => None,
    }
}

/// Relies on rsa::RsaPublicKey::verify with PSS/SHA-256 padding over a
/// precomputed digest. Whether a signature verifies depends on the opaque
/// key; nothing more is promised.
#[verifier::external_body]
pub(crate) fn rsa_verify_pss(key: &rsa::RsaPublicKey, digest: &[u8], signature: &[u8]) -> (r: bool)
{
    let padding = rsa::Pss::new::<sha2::Sha256>();
    key.verify(padding, digest, signature).is_ok()
}

/// Relies on rsa's pkcs1 PEM decoding for private keys.
#[verifier::external_body]
fn rsa_private_from_pem(pem: &str) -> (r: Option<rsa::RsaPrivateKey>)
{
    match rsa::RsaPrivateKey::from_pkcs1_pem(pem) {
        Ok(k) => Some(k),
        Err(_) => None,
    }
}

/// Relies on rsa's pkcs1 PEM decoding for public keys.
#[verifier::external_body]
fn rsa_public_from_pem(pem: &str) -> (r: Option<rsa::RsaPublicKey>)
{
    match rsa::RsaPublicKey::from_pkcs1_pem(pem) {
        Ok(k) => Some(k),
        Err(_) => None,
    }
}

/// Relies on rsa::RsaPublicKey::From<&RsaPrivateKey>: derives the public
/// half of a key pair.
#[verifier::external_body]
fn rsa_public_of(key: &rsa::RsaPrivateKey) -> (r: rsa::RsaPublicKey)
{
    rsa::RsaPublicKey::from(key)
}

/// Relies on rsa's pkcs1 PEM encoding for public keys.
#[verifier::external_body]
fn rsa_public_to_pem(key: &rsa::RsaPublicKey) -> (r: Option<String>)
{
    match key.to_pkcs1_pem(rsa::pkcs1::LineEnding::LF) {
        Ok(p) => Some(p),
        Err(_) => None,
    }
}

/// Relies on rsa's pkcs1 PEM encoding for private keys.
#[verifier::external_body]
fn rsa_private_to_pem(key: &rsa::RsaPrivateKey) -> (r: Option<String>)
{
    match key.to_pkcs1_pem(rsa::pkcs1::LineEnding::LF) {
        Ok(p) => Some(p.to_string()),
        Err(_) => None,
    }
}

/// Reads an RSA public key from pkcs1 PEM text, for pinning the issuing
/// server's signing key.
pub fn load_public_key_pem(pem: &str) -> (r: AgentResult<rsa::RsaPublicKey>)
{
    match rsa_public_from_pem(pem) {
        Some(k) => Ok(k),
        None => Err(AgentError::CryptoError("Invalid public key PEM".to_owned())),
    }
}

/// The agent's RSA key pair: OAEP envelope decryption and PSS signing for
/// the rotation protocol.
pub struct CryptoManager {
    private_key: rsa::RsaPrivateKey,
    public_key: rsa::RsaPublicKey,
}

impl CryptoManager {
    /// Wraps an existing key pair.
    pub fn new(private_key: rsa::RsaPrivateKey, public_key: rsa::RsaPublicKey) -> (r:
        CryptoManager)
    {
        CryptoManager { private_key, public_key }
    }

    /// Builds a manager from PEM text: the private key, and either the
    /// public key's PEM or the public half derived from the private key.
    /// Reading the PEM files is the caller's part.
    pub fn from_pem_texts(private_pem: &str, public_pem: Option<&str>) -> (r: AgentResult<
        CryptoManager,
    >)
    {
        let private_key = match rsa_private_from_pem(private_pem) {
            Some(k) => k,
            None => {
                return Err(AgentError::CryptoError("Invalid private key PEM".to_owned()));
            },
        };
        let public_key = match public_pem {
            Some(pem) => match rsa_public_from_pem(pem) {
                Some(k) => k,
                None => {
                    return Err(AgentError::CryptoError("Invalid public key PEM".to_owned()));
                },
            },
            None => rsa_public_of(&private_key),
        };
        Ok(CryptoManager { private_key, public_key })
    }

    /// Generates a fresh RSA-2048 key pair.
    pub fn generate_keys() -> (r: AgentResult<(rsa::RsaPrivateKey, rsa::RsaPublicKey)>)
    {
        match rsa_generate() {
            Some(pair) => Ok(pair),
            None => Err(AgentError::CryptoError("Key generation failed".to_owned())),
        }
    }

    /// RSA-OAEP/SHA-256 encryption under the public key. The label
    /// parameter is accepted for interface compatibility and unused, as in
    /// the wire protocol.
    pub fn encrypt_oaep(&self, data: &[u8], label: Option<&[u8]>) -> (r: Result<
        Vec<u8>,
        AgentError,
    >)
    {
        let _ = label;
        match rsa_encrypt_oaep(&self.public_key, data) {
            Some(ct) => Ok(ct),
            None => Err(AgentError::CryptoError("RSA-OAEP encryption failed".to_owned())),
        }
    }

    /// RSA-OAEP/SHA-256 decryption under the private key.
    pub fn decrypt_oaep(&self, encrypted: &[u8], label: Option<&[u8]>) -> (r: Result<
        Vec<u8>,
        AgentError,
    >)
    {
        let _ = label;
        match rsa_decrypt_oaep(&self.private_key, encrypted) {
            Some(pt) => Ok(pt),
            None => Err(AgentError::CryptoError("RSA-OAEP decryption failed".to_owned())),
        }
    }

    /// RSA-PSS/SHA-256 signature over the SHA-256 digest of `data`.
    pub fn sign_pss(&self, data: &[u8]) -> (r: Result<Vec<u8>, AgentError>)
    {
        let digest = crate::tpm::sha256(data);
        match rsa_sign_pss(&self.private_key, digest.as_slice()) {
            Some(sig) => Ok(sig),
            None => Err(AgentError::CryptoError("RSA-PSS signing failed".to_owned())),
        }
    }

    /// RSA-PSS/SHA-256 verification over the SHA-256 digest of `data`.
    pub fn verify_pss(&self, data: &[u8], signature: &[u8]) -> (r: Result<bool, AgentError>)
    {
        let digest = crate::tpm::sha256(data);
        Ok(rsa_verify_pss(&self.public_key, digest.as_slice(), signature))
    }

    /// The public key, for export.
    pub fn public_key(&self) -> (r: &rsa::RsaPublicKey)
    {
        &self.public_key
    }

    /// The public key as pkcs1 PEM text.
    pub fn export_public_key_pem(&self) -> (r: AgentResult<String>)
    {
        match rsa_public_to_pem(&self.public_key) {
            Some(p) => Ok(p),
            None => Err(AgentError::CryptoError("PEM export failed".to_owned())),
        }
    }

    /// The private key as pkcs1 PEM text.
    pub fn export_private_key_pem(&self) -> (r: AgentResult<String>)
    {
        match rsa_private_to_pem(&self.private_key) {
            Some(p) => Ok(p),
            None => Err(AgentError::CryptoError("PEM export failed".to_owned())),
        }
    }
}

/// Constant-time byte equality: true exactly when the two inputs hold the
/// same bytes (unequal lengths compare unequal). The comparison accumulates
/// XOR differences instead of short-circuiting so timing does not reveal the
/// first differing position.
pub fn constant_time_compare(a: &[u8], b: &[u8]) -> (r: bool)
    ensures
        r == (a@ == b@),
{
    if a.len() != b.len() {
        assert(a@ != b@);
        return false;
    }
    let mut result: u8 = 0;
    let mut i: usize = 0;
    while i < a.len()
        invariant
            a@.len() == b@.len(),
            i <= a@.len(),
            (result == 0) <==> (forall|j: int| 0 <= j < i ==> a@[j] == b@[j]),
        decreases a@.len() - i,
    {
        let x: u8 = a[i];
        let y: u8 = b[i];
        let d: u8 = x ^ y;
        assert(d == 0 <==> x == y) by (bit_vector)
            requires
                d == x ^ y,
        ;
        let old_result: u8 = result;
        result = result | d;
        assert(result == 0 <==> (old_result == 0 && d == 0)) by (bit_vector)
            requires
                result == old_result | d,
        ;
        i += 1;
    }
    proof {
        if forall|j: int| 0 <= j < a@.len() ==> a@[j] == b@[j] {
            assert(a@ =~= b@);
        }
    }
    result == 0
}

} // verus!
