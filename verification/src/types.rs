//! Core data model: secret lifecycle states, metadata, license records and
//! the error sum shared by every component.
//!
//! Timestamps are UTC instants measured in whole seconds since the Unix
//! epoch, held as `i64`.

use vstd::prelude::*;

verus! {

/// Lifecycle state of a secret version.
///
/// Versions only move forward: ABSENT -> ACTIVE -> GRACE -> INVALID, and
/// INVALID is terminal.
#[derive(Debug, Clone, Copy, PartialEq, Eq, Structural)]
pub enum SecretState {
    Absent,
    Active,
    Grace,
    Invalid,
}

/// How a secret version came to be installed.
#[derive(Debug, Clone, Copy, PartialEq, Eq, Structural)]
pub enum RotationSource {
    Automatic,
    Manual,
    Recovery,
}

/// Position of a state along the one-way lifecycle, used to express that
/// transitions never move backwards.
pub open spec fn state_rank(s: SecretState) -> int {
    match s {
        SecretState::Absent => 0,
        SecretState::Active => 1,
        SecretState::Grace => 2,
        SecretState::Invalid => 3,
    }
}

/// Non-sensitive metadata attached to one secret version.
#[derive(Debug, Clone)]
pub struct SecretMetadata {
    pub version: u64,
    pub state: SecretState,
    pub valid_from: i64,
    pub valid_until: i64,
    pub grace_until: Option<i64>,
    pub created_at: i64,
    pub last_used_at: Option<i64>,
    pub rotation_source: RotationSource,
    pub invalidation_reason: Option<String>,
}

/// Mathematical view of `SecretMetadata`: the invalidation reason as a
/// character sequence, everything else as is.
pub struct MetaView {
    pub version: u64,
    pub state: SecretState,
    pub valid_from: i64,
    pub valid_until: i64,
    pub grace_until: Option<i64>,
    pub created_at: i64,
    pub last_used_at: Option<i64>,
    pub rotation_source: RotationSource,
    pub invalidation_reason: Option<Seq<char>>,
}

impl View for SecretMetadata {
    type V = MetaView;

    open spec fn view(&self) -> MetaView {
        MetaView {
            version: self.version,
            state: self.state,
            valid_from: self.valid_from,
            valid_until: self.valid_until,
            grace_until: self.grace_until,
            created_at: self.created_at,
            last_used_at: self.last_used_at,
            rotation_source: self.rotation_source,
            invalidation_reason: match self.invalidation_reason {
                Some(s) => Some(s@),
                None => None,
            },
        }
    }
}

/// Earliest timestamp the state file can carry: 0000-01-01T00:00:00Z,
/// the lower bound of the four-digit-year date format used on disk.
pub const TS_MIN: i64 = -62167219200;

/// Latest timestamp the state file can carry: 9999-12-31T23:59:59Z.
pub const TS_MAX: i64 = 253402300799;

/// A timestamp the on-disk date format can represent.
pub open spec fn ts_ok(t: i64) -> bool {
    TS_MIN <= t <= TS_MAX
}

/// Runtime check of `ts_ok`.
pub fn ts_ok_exec(t: i64) -> (r: bool)
    ensures
        r == ts_ok(t),
{
    TS_MIN <= t && t <= TS_MAX
}

/// Internal consistency of one stored metadata record: a recorded grace
/// deadline lies after the validity window opens and closes, the GRACE state
/// always carries one, an invalidation reason is recorded exactly for
/// INVALID, no stored record is ABSENT, and every timestamp is representable
/// on disk.
pub open spec fn meta_ok(m: MetaView) -> bool {
    &&& m.state != SecretState::Absent
    &&& (m.grace_until matches Some(g) ==> g > m.valid_until && g >= m.valid_from)
    &&& (m.state == SecretState::Grace || m.state == SecretState::Active ==> m.grace_until
        is Some)
    &&& (m.invalidation_reason is Some <==> m.state == SecretState::Invalid)
    &&& ts_ok(m.valid_from)
    &&& ts_ok(m.valid_until)
    &&& ts_ok(m.created_at)
    &&& (m.grace_until matches Some(g) ==> ts_ok(g))
    &&& (m.last_used_at matches Some(t) ==> ts_ok(t))
}

/// A 32-byte AEAD key together with its metadata.
pub struct Secret {
    pub data: Vec<u8>,
    pub metadata: SecretMetadata,
}

/// Decrypted license token payload.
pub struct LicenseInfo {
    pub license_id: String,
    pub customer_id: String,
    pub features: Vec<String>,
    pub expires_at: i64,
    pub metadata: Vec<(String, String)>,
}

/// Outcome of validating one license token.
pub struct ValidationResult {
    pub valid: bool,
    pub expires_at: Option<i64>,
    pub features: Vec<String>,
    pub metadata: Vec<(String, String)>,
    pub error: Option<String>,
}

/// One validation request as carried over the IPC socket.
pub struct ValidateLicenseRequest {
    pub license_token: Vec<u8>,
    pub nonce: Vec<u8>,
}

/// One validation response as carried over the IPC socket.
pub struct ValidateLicenseResponse {
    pub result: ValidationResult,
}

/// Snapshot of one secret version for status reporting (no key bytes).
#[derive(Debug, Clone)]
pub struct SecretInfo {
    pub version: u64,
    pub state: SecretState,
    pub valid_from: i64,
    pub valid_until: i64,
    pub grace_until: Option<i64>,
    pub remaining_seconds: Option<i64>,
}

/// Status of the sealing backend.
#[derive(Debug, Clone)]
pub struct TpmStatus {
    pub available: bool,
    pub version: Option<String>,
    pub manufacturer: Option<String>,
    pub firmware_version: Option<String>,
    pub keys_loaded: usize,
    pub nv_space_used: Option<u64>,
}

/// Validation counters for status reporting.
#[derive(Debug, Clone)]
pub struct LicenseStatus {
    pub last_validation: Option<i64>,
    pub total_validations: u64,
    pub successful_validations: u64,
    pub failed_validations: u64,
    pub last_error: Option<String>,
}

/// Degraded-mode supervisor state for status reporting.
#[derive(Debug, Clone)]
pub struct DegradedModeStatus {
    pub active: bool,
    pub activated_at: Option<i64>,
    pub duration_seconds: Option<i64>,
    pub grace_period_end: Option<i64>,
    pub remaining_seconds: Option<i64>,
}

/// Full system status answered to the management surface.
pub struct SystemStatus {
    pub active_secret: Option<SecretInfo>,
    pub grace_secrets: Vec<SecretInfo>,
    pub tpm_status: TpmStatus,
    pub license_status: LicenseStatus,
    pub degraded_mode: DegradedModeStatus,
    pub next_rotation: Option<i64>,
}

/// Every failure the agent reports, as a single tagged sum.
#[derive(Debug, Clone)]
pub enum AgentError {
    SecretNotFound(u64),
    SecretExpired(u64),
    SecretInvalid(String),
    LicenseValidationFailed(String),
    TpmError(String),
    NetworkError(String),
    ConfigError(String),
    IpcError(String),
    RotationFailed(String),
    CryptoError(String),
    InternalError(String),
}

pub type AgentResult<T> = Result<T, AgentError>;

impl AgentError {
    /// Human-readable description, mirroring the kind and its payload.
    pub fn describe(&self) -> (r: String)
    {
        match self {
            AgentError::SecretNotFound(_) => "Secret not found".to_owned(),
            AgentError::SecretExpired(_) => "Secret expired".to_owned(),
            AgentError::SecretInvalid(m) => m.clone(),
            AgentError::LicenseValidationFailed(m) => m.clone(),
            AgentError::TpmError(m) => m.clone(),
            AgentError::NetworkError(m) => m.clone(),
            AgentError::ConfigError(m) => m.clone(),
            AgentError::IpcError(m) => m.clone(),
            AgentError::RotationFailed(m) => m.clone(),
            AgentError::CryptoError(m) => m.clone(),
            AgentError::InternalError(m) => m.clone(),
        }
    }
}

} // verus!
