//! Rotation: deciding when to rotate, building the signed request, and
//! installing a server response atomically.
//!
//! The network call itself is the runtime's part; it drives the retry loop
//! with `should_retry` and `retry_delay`, and feeds the response bytes back
//! through `parse_rotation_response` and `install_rotation`. The
//! `rotation_in_progress` flag serializes rotations: while one holds the
//! flag, `try_begin_rotation` refuses every other caller, so at most one
//! rotation proceeds at a time.

use vstd::prelude::*;
use vstd::utf8::encode_utf8;
use crate::crypto::{b64_val, hex_of, CryptoManager};
use crate::json::{dec_of, spec_parse, Json, JsonNum, JsonV};
use crate::license::obj_lookup;
use crate::persist::{rfc3339_of, rfc3339_val};
use crate::secret::{demote_active, SecretManager};
use crate::tpm::unsealed;
use crate::types::{
    ts_ok, AgentError, AgentResult, MetaView, RotationSource, Secret, SecretMetadata, SecretState,
};

verus! {

/// A rotation request as sent to the issuing server.
pub struct RotateSecretRequest {
    pub agent_id: String,
    pub current_version: u64,
    pub timestamp: i64,
    pub nonce: Vec<u8>,
    pub signature: Vec<u8>,
}

/// A rotation response from the issuing server, with the envelope still
/// encrypted.
pub struct RotateSecretResponse {
    pub new_secret_encrypted: Vec<u8>,
    pub version: u64,
    pub valid_from: i64,
    pub valid_until: i64,
    pub grace_until: i64,
    pub signature: Vec<u8>,
}

/// Decimal bytes of a signed number.
pub open spec fn dec_i64(t: i64) -> Seq<u8> {
    if t >= 0 {
        dec_of(t as nat)
    } else {
        seq![45u8] + dec_of((-(t as int)) as nat)
    }
}

/// The bytes signed for a rotation request:
/// agent_id, current version, Unix timestamp and hex nonce, concatenated.
pub open spec fn signing_payload(
    agent_id: Seq<char>,
    current_version: u64,
    timestamp: i64,
    nonce: Seq<u8>,
) -> Seq<u8> {
    encode_utf8(agent_id) + dec_of(current_version as nat) + dec_i64(timestamp) + hex_of(nonce)
}

/// Appends the decimal bytes of a signed number.
fn push_dec_i64(out: &mut Vec<u8>, t: i64)
    ensures
        final(out)@ == old(out)@ + dec_i64(t),
{
    if t >= 0 {
        crate::json::push_dec(out, t as u64);
    } else {
        out.push(45);
        let mag: u64 = (-(t as i128)) as u64;
        proof {
            assert(mag == (-(t as int)) as nat);
        }
        crate::json::push_dec(out, mag);
        proof {
            assert(final(out)@ =~= old(out)@ + dec_i64(t));
        }
    }
}

/// Builds the exact byte string that is signed for a rotation request.
pub fn build_signing_payload(
    agent_id: &str,
    current_version: u64,
    timestamp: i64,
    nonce: &[u8],
) -> (r: Vec<u8>)
    ensures
        r@ == signing_payload(agent_id@, current_version, timestamp, nonce@),
{
    let mut out = crate::persist::str_to_bytes(agent_id);
    crate::json::push_dec(&mut out, current_version);
    push_dec_i64(&mut out, timestamp);
    let mut hexed = crate::crypto::hex_encode(nonce);
    out.append(&mut hexed);
    proof {
        assert(out@ =~= signing_payload(agent_id@, current_version, timestamp, nonce@));
    }
    out
}

/// Powers of two.
pub open spec fn pow2(n: nat) -> nat
    decreases n,
{
    if n == 0 {
        1
    } else {
        2 * pow2((n - 1) as nat)
    }
}

/// Reads a rotation response from its document: the base64 envelope
/// decoded, the version, the RFC 3339 window, and the signature text.
pub open spec fn response_of_doc(v: JsonV) -> Option<
    (Seq<u8>, u64, i64, i64, i64, Seq<u8>),
> {
    match v {
        JsonV::Obj(fields) => {
            match (
                obj_lookup(fields, l_new_secret_encrypted()),
                obj_lookup(fields, l_resp_version()),
                obj_lookup(fields, l_resp_valid_from()),
                obj_lookup(fields, l_resp_valid_until()),
                obj_lookup(fields, l_resp_grace_until()),
                obj_lookup(fields, l_resp_signature()),
            ) {
                (
                    Some(JsonV::Str(envelope)),
                    Some(JsonV::Num(n)),
                    Some(JsonV::Str(vf)),
                    Some(JsonV::Str(vu)),
                    Some(JsonV::Str(gu)),
                    Some(JsonV::Str(sig)),
                ) => {
                    if n.neg {
                        None
                    } else {
                        match (b64_val(envelope), rfc3339_val(vf), rfc3339_val(vu), rfc3339_val(
                            gu,
                        )) {
                            (Some(secret_ct), Some(f), Some(u), Some(g)) => Some(
                                (secret_ct, n.mag, f, u, g, sig),
                            ),
                            _ => None,
                        }
                    }
                },
                _ => None,
            }
        },
        _ => None,
    }
}

pub open spec fn l_new_secret_encrypted() -> Seq<u8> {
    seq![110u8, 101u8, 119u8, 95u8, 115u8, 101u8, 99u8, 114u8, 101u8, 116u8, 95u8, 101u8,
        110u8, 99u8, 114u8, 121u8, 112u8, 116u8, 101u8, 100u8]
}

pub open spec fn l_resp_version() -> Seq<u8> {
    seq![118u8, 101u8, 114u8, 115u8, 105u8, 111u8, 110u8]
}

pub open spec fn l_resp_valid_from() -> Seq<u8> {
    seq![118u8, 97u8, 108u8, 105u8, 100u8, 95u8, 102u8, 114u8, 111u8, 109u8]
}

pub open spec fn l_resp_valid_until() -> Seq<u8> {
    seq![118u8, 97u8, 108u8, 105u8, 100u8, 95u8, 117u8, 110u8, 116u8, 105u8, 108u8]
}

pub open spec fn l_resp_grace_until() -> Seq<u8> {
    seq![103u8, 114u8, 97u8, 99u8, 101u8, 95u8, 117u8, 110u8, 116u8, 105u8, 108u8]
}

pub open spec fn l_resp_signature() -> Seq<u8> {
    seq![115u8, 105u8, 103u8, 110u8, 97u8, 116u8, 117u8, 114u8, 101u8]
}

/// Reads a rotation response from the server's bytes, exactly as parsing
/// then `response_of_doc` describe.
pub fn parse_rotation_response(data: &[u8]) -> (r: AgentResult<RotateSecretResponse>)
    ensures
        match r {
            Ok(resp) => spec_parse(data@) matches Some(doc) && response_of_doc(doc) == Some(
                (
                    resp.new_secret_encrypted@,
                    resp.version,
                    resp.valid_from,
                    resp.valid_until,
                    resp.grace_until,
                    resp.signature@,
                ),
            ),
            Err(e) => e is NetworkError && (match spec_parse(data@) {
                None => true,
                Some(doc) => response_of_doc(doc) is None,
            }),
        },
{
    let doc = match crate::json::parse_json(data) {
        Some(d) => d,
        None => {
            return Err(AgentError::NetworkError("Failed to parse response".to_owned()));
        },
    };
    let fields = match &doc {
        Json::Obj(fields) => fields,
        _ => {
            return Err(AgentError::NetworkError("Failed to parse response".to_owned()));
        },
    };
    let envelope_b64 = match crate::license::obj_get(fields, bl_new_secret_encrypted(
    ).as_slice()) {
        Some(Json::Str(b)) => b,
        _ => {
            return Err(AgentError::NetworkError("Failed to parse response".to_owned()));
        },
    };
    let version = match crate::license::obj_get(fields, bl_resp_version().as_slice()) {
        Some(Json::Num(n)) => {
            if n.neg {
                return Err(AgentError::NetworkError("Failed to parse response".to_owned()));
            }
            n.mag
        },
        _ => {
            return Err(AgentError::NetworkError("Failed to parse response".to_owned()));
        },
    };
    let valid_from = match crate::license::obj_get(fields, bl_resp_valid_from().as_slice()) {
        Some(Json::Str(b)) => match crate::persist::parse_rfc3339(b.as_slice()) {
            Some(t) => t,
            None => {
                return Err(AgentError::NetworkError("Failed to parse response".to_owned()));
            },
        },
        _ => {
            return Err(AgentError::NetworkError("Failed to parse response".to_owned()));
        },
    };
    let valid_until = match crate::license::obj_get(fields, bl_resp_valid_until().as_slice()) {
        Some(Json::Str(b)) => match crate::persist::parse_rfc3339(b.as_slice()) {
            Some(t) => t,
            None => {
                return Err(AgentError::NetworkError("Failed to parse response".to_owned()));
            },
        },
        _ => {
            return Err(AgentError::NetworkError("Failed to parse response".to_owned()));
        },
    };
    let grace_until = match crate::license::obj_get(fields, bl_resp_grace_until().as_slice()) {
        Some(Json::Str(b)) => match crate::persist::parse_rfc3339(b.as_slice()) {
            Some(t) => t,
            None => {
                return Err(AgentError::NetworkError("Failed to parse response".to_owned()));
            },
        },
        _ => {
            return Err(AgentError::NetworkError("Failed to parse response".to_owned()));
        },
    };
    let signature = match crate::license::obj_get(fields, bl_resp_signature().as_slice()) {
        Some(Json::Str(b)) => crate::persist::str_bytes_copy(b),
        _ => {
            return Err(AgentError::NetworkError("Failed to parse response".to_owned()));
        },
    };
    let new_secret_encrypted = match crate::crypto::b64_decode(envelope_b64.as_slice()) {
        Some(v) => v,
        None => {
            return Err(AgentError::NetworkError("Failed to parse response".to_owned()));
        },
    };
    Ok(
        RotateSecretResponse {
            new_secret_encrypted,
            version,
            valid_from,
            valid_until,
            grace_until,
            signature,
        },
    )
}

fn bl_new_secret_encrypted() -> (r: Vec<u8>)
    ensures
        r@ == l_new_secret_encrypted(),
{
    let mut v: Vec<u8> = Vec::new();
    v.push(110);
    v.push(101);
    v.push(119);
    v.push(95);
    v.push(115);
    v.push(101);
    v.push(99);
    v.push(114);
    v.push(101);
    v.push(116);
    v.push(95);
    v.push(101);
    v.push(110);
    v.push(99);
    v.push(114);
    v.push(121);
    v.push(112);
    v.push(116);
    v.push(101);
    v.push(100);
    proof {
        assert(v@ =~= l_new_secret_encrypted());
    }
    v
}

fn bl_resp_version() -> (r: Vec<u8>)
    ensures
        r@ == l_resp_version(),
{
    let mut v: Vec<u8> = Vec::new();
    v.push(118);
    v.push(101);
    v.push(114);
    v.push(115);
    v.push(105);
    v.push(111);
    v.push(110);
    proof {
        assert(v@ =~= l_resp_version());
    }
    v
}

fn bl_resp_valid_from() -> (r: Vec<u8>)
    ensures
        r@ == l_resp_valid_from(),
{
    let mut v: Vec<u8> = Vec::new();
    v.push(118);
    v.push(97);
    v.push(108);
    v.push(105);
    v.push(100);
    v.push(95);
    v.push(102);
    v.push(114);
    v.push(111);
    v.push(109);
    proof {
        assert(v@ =~= l_resp_valid_from());
    }
    v
}

fn bl_resp_valid_until() -> (r: Vec<u8>)
    ensures
        r@ == l_resp_valid_until(),
{
    let mut v: Vec<u8> = Vec::new();
    v.push(118);
    v.push(97);
    v.push(108);
    v.push(105);
    v.push(100);
    v.push(95);
    v.push(117);
    v.push(110);
    v.push(116);
    v.push(105);
    v.push(108);
    proof {
        assert(v@ =~= l_resp_valid_until());
    }
    v
}

fn bl_resp_grace_until() -> (r: Vec<u8>)
    ensures
        r@ == l_resp_grace_until(),
{
    let mut v: Vec<u8> = Vec::new();
    v.push(103);
    v.push(114);
    v.push(97);
    v.push(99);
    v.push(101);
    v.push(95);
    v.push(117);
    v.push(110);
    v.push(116);
    v.push(105);
    v.push(108);
    proof {
        assert(v@ =~= l_resp_grace_until());
    }
    v
}

fn bl_resp_signature() -> (r: Vec<u8>)
    ensures
        r@ == l_resp_signature(),
{
    let mut v: Vec<u8> = Vec::new();
    v.push(115);
    v.push(105);
    v.push(103);
    v.push(110);
    v.push(97);
    v.push(116);
    v.push(117);
    v.push(114);
    v.push(101);
    proof {
        assert(v@ =~= l_resp_signature());
    }
    v
}

/// The rotation engine: decides when to rotate and installs responses; the
/// runtime performs the network call.
pub struct RotationManager {
    agent_id: String,
    rotation_threshold_seconds: u64,
    max_retries: u32,
    base_retry_delay_seconds: u64,
    rotation_in_progress: bool,
}

impl RotationManager {
    pub closed spec fn spec_agent_id(&self) -> Seq<char> {
        self.agent_id@
    }

    pub closed spec fn threshold(&self) -> u64 {
        self.rotation_threshold_seconds
    }

    pub closed spec fn spec_max_retries(&self) -> u32 {
        self.max_retries
    }

    pub closed spec fn spec_base_delay(&self) -> u64 {
        self.base_retry_delay_seconds
    }

    pub closed spec fn in_progress(&self) -> bool {
        self.rotation_in_progress
    }

    /// A fresh engine: no rotation in progress, three retries with a
    /// one-second base delay.
    pub fn new(agent_id: String, rotation_threshold_seconds: u64) -> (r: RotationManager)
        ensures
            r.spec_agent_id() == agent_id@,
            r.threshold() == rotation_threshold_seconds,
            r.spec_max_retries() == 3,
            r.spec_base_delay() == 1,
            !r.in_progress(),
    {
        RotationManager {
            agent_id,
            rotation_threshold_seconds,
            max_retries: 3,
            base_retry_delay_seconds: 1,
            rotation_in_progress: false,
        }
    }

    /// Sets the retry budget.
    pub fn with_max_retries(self, max_retries: u32) -> (r: RotationManager)
        ensures
            r.spec_max_retries() == max_retries,
            r.spec_base_delay() == self.spec_base_delay(),
            r.threshold() == self.threshold(),
            r.spec_agent_id() == self.spec_agent_id(),
            r.in_progress() == self.in_progress(),
    {
        RotationManager { max_retries, ..self }
    }

    /// Sets the base retry delay.
    pub fn with_base_retry_delay(self, seconds: u64) -> (r: RotationManager)
        ensures
            r.spec_base_delay() == seconds,
            r.spec_max_retries() == self.spec_max_retries(),
            r.threshold() == self.threshold(),
            r.spec_agent_id() == self.spec_agent_id(),
            r.in_progress() == self.in_progress(),
    {
        RotationManager { base_retry_delay_seconds: seconds, ..self }
    }

    /// Rotation is needed exactly when no version is active, or the active
    /// version's remaining lifetime is below the threshold.
    pub fn check_rotation_needed(&self, manager: &SecretManager, now: i64) -> (r: bool)
        requires
            manager.wf(),
        ensures
            r == match manager.active() {
                None => true,
                Some(v) => manager.metas()[manager.idx(v)].valid_until - now < self.threshold(),
            },
    {
        let version = match manager.active_version() {
            Some(v) => v,
            None => {
                return true;
            },
        };
        proof {
            let w = choose|i: int|
                0 <= i < manager.metas().len() && manager.metas()[i].version == version;
            assert(manager.metas()[w].version == version);
        }
        let m = match manager.get_metadata(version) {
            Some(m) => m,
            None => {
                return true;
            },
        };
        (m.valid_until as i128) - (now as i128) < (self.rotation_threshold_seconds as i128)
    }

    /// Claims the rotation-in-progress flag. While one caller holds it,
    /// every other caller gets `RotationFailed`, with nothing changed - at
    /// most one rotation proceeds at a time.
    pub fn try_begin_rotation(&mut self) -> (r: AgentResult<()>)
        ensures
            old(self).in_progress() ==> (r matches Err(e) && e is RotationFailed) && *final(self)
                == *old(self),
            !old(self).in_progress() ==> r is Ok && final(self).in_progress(),
            final(self).spec_agent_id() == old(self).spec_agent_id(),
            final(self).threshold() == old(self).threshold(),
            final(self).spec_max_retries() == old(self).spec_max_retries(),
            final(self).spec_base_delay() == old(self).spec_base_delay(),
    {
        if self.rotation_in_progress {
            return Err(AgentError::RotationFailed("Rotation already in progress".to_owned()));
        }
        self.rotation_in_progress = true;
        Ok(())
    }

    /// Releases the rotation-in-progress flag, on success and failure paths
    /// alike.
    pub fn end_rotation(&mut self)
        ensures
            !final(self).in_progress(),
            final(self).spec_agent_id() == old(self).spec_agent_id(),
            final(self).threshold() == old(self).threshold(),
            final(self).spec_max_retries() == old(self).spec_max_retries(),
            final(self).spec_base_delay() == old(self).spec_base_delay(),
    {
        self.rotation_in_progress = false;
    }

    /// The exponential backoff before retry `attempt`:
    /// `base * 2^attempt` seconds, saturating.
    pub fn retry_delay(&self, attempt: u32) -> (r: u64)
        ensures
            self.spec_base_delay() * pow2(attempt as nat) <= u64::MAX ==> r == self.spec_base_delay()
                * pow2(attempt as nat),
    {
        let mut delay: u64 = self.base_retry_delay_seconds;
        let mut k: u32 = 0;
        proof {
            assert(pow2(0) == 1);
            assert(self.spec_base_delay() * pow2(0) == self.spec_base_delay());
        }
        while k < attempt
            invariant
                k <= attempt,
                self.spec_base_delay() * pow2(attempt as nat) <= u64::MAX ==> delay
                    == self.spec_base_delay() * pow2(k as nat),
                delay <= u64::MAX,
            decreases attempt - k,
        {
            proof {
                if self.spec_base_delay() * pow2(attempt as nat) <= u64::MAX {
                    let b = self.spec_base_delay() as nat;
                    let pk = pow2(k as nat);
                    let pa = pow2(attempt as nat);
                    assert(pow2((k + 1) as nat) == 2 * pk);
                    lemma_pow2_mono((k + 1) as nat, attempt as nat);
                    assert(b * (2 * pk) <= b * pa) by (nonlinear_arith)
                        requires
                            2 * pk <= pa,
                            b >= 0,
                    ;
                    assert(b * (2 * pk) == 2 * (b * pk)) by (nonlinear_arith);
                    assert(2 * delay <= u64::MAX);
                }
            }
            delay = if delay > u64::MAX / 2 {
                u64::MAX
            } else {
                delay * 2
            };
            k += 1;
        }
        delay
    }

    /// The retry policy: only transport-level failures are retried, and
    /// only while attempts remain.
    pub fn should_retry(&self, error: &AgentError, attempt: u32) -> (r: bool)
        ensures
            r == (attempt + 1 < self.spec_max_retries() && error is NetworkError),
    {
        attempt < u32::MAX && attempt + 1 < self.max_retries && matches!(
            error,
            AgentError::NetworkError(_),
        )
    }

    /// Builds the signed rotation request for the current store state at
    /// `now`, with the given fresh nonce. The signature covers exactly
    /// `signing_payload`.
    pub fn build_rotation_request(
        &self,
        manager: &SecretManager,
        crypto: &CryptoManager,
        nonce: &[u8],
        now: i64,
    ) -> (r: AgentResult<RotateSecretRequest>)
        requires
            manager.wf(),
        ensures
            r matches Ok(req) ==> {
                &&& req.agent_id@ == self.spec_agent_id()
                &&& req.current_version == (match manager.active() {
                    Some(v) => v,
                    None => 0u64,
                })
                &&& req.timestamp == now
                &&& req.nonce@ == hex_of(nonce@)
            },
    {
        if !crate::types::ts_ok_exec(now) {
            return Err(AgentError::InternalError("timestamp not representable".to_owned()));
        }
        let current_version = match manager.active_version() {
            Some(v) => v,
            None => 0,
        };
        let payload = build_signing_payload(self.agent_id.as_str(), current_version, now, nonce);
        let signature = match crypto.sign_pss(payload.as_slice()) {
            Ok(sig) => sig,
            Err(e) => {
                return Err(e);
            },
        };
        let sig_b64 = crate::crypto::b64_encode(signature.as_slice());
        let nonce_hex = crate::crypto::hex_encode(nonce);
        let agent_id = self.agent_id.clone();
        Ok(
            RotateSecretRequest {
                agent_id,
                current_version,
                timestamp: now,
                nonce: nonce_hex,
                signature: sig_b64,
            },
        )
    }

    /// Verifies the server's RSA-PSS/SHA-256 signature on a rotation
    /// response against the pinned server public key: the base64 signature
    /// text must decode, and the rsa crate must accept it over exactly
    /// `response_signing_payload`. A response whose window is not
    /// representable, whose signature is not canonical base64, or whose
    /// signature the key rejects, is refused.
    pub fn verify_response(
        &self,
        server_key: &rsa::RsaPublicKey,
        response: &RotateSecretResponse,
    ) -> (r: AgentResult<()>)
        ensures
            r is Ok ==> crate::crypto::b64_val(response.signature@) is Some && ts_ok(
                response.valid_from,
            ) && ts_ok(response.valid_until) && ts_ok(response.grace_until),
    {
        let payload = match render_response_payload(response) {
            Ok(p) => p,
            Err(e) => {
                return Err(e);
            },
        };
        let signature = match crate::crypto::b64_decode(response.signature.as_slice()) {
            Some(s) => s,
            None => {
                return Err(
                    AgentError::RotationFailed("Invalid server signature encoding".to_owned()),
                );
            },
        };
        let digest = crate::tpm::sha256(payload.as_slice());
        if crate::crypto::rsa_verify_pss(server_key, digest.as_slice(), signature.as_slice()) {
            Ok(())
        } else {
            Err(AgentError::RotationFailed("Invalid server signature".to_owned()))
        }
    }

    /// Installs a rotation response: decrypts the envelope with the agent
    /// key, requires a 32-byte secret, stores it as the new ACTIVE version
    /// and leaves the previous active version in GRACE with its own
    /// recorded deadline. On any failure the store is unchanged.
    pub fn install_rotation(
        &self,
        manager: &mut SecretManager,
        crypto: &CryptoManager,
        response: &RotateSecretResponse,
        forced: bool,
        now: i64,
    ) -> (r: AgentResult<u64>)
        requires
            old(manager).wf(),
        ensures
            final(manager).wf(),
            final(manager).seal_key() == old(manager).seal_key(),
            r is Err ==> *final(manager) == *old(manager),
            r matches Ok(v) ==> {
                &&& v == response.version
                &&& final(manager).active() == Some(response.version)
                &&& final(manager).metas().len() == old(manager).metas().len() + 1
                &&& final(manager).metas() == demote_active(
                    old(manager).metas(),
                    old(manager).active(),
                ).push(final(manager).metas().last())
                &&& final(manager).metas().last() == (MetaView {
                    version: response.version,
                    state: SecretState::Active,
                    valid_from: response.valid_from,
                    valid_until: response.valid_until,
                    grace_until: Some(response.grace_until),
                    created_at: now,
                    last_used_at: Some(now),
                    rotation_source: if forced {
                        RotationSource::Manual
                    } else {
                        RotationSource::Automatic
                    },
                    invalidation_reason: None,
                })
                &&& (unsealed(final(manager).seal_key(), final(manager).blobs().last())
                    matches Some(key) && key.len() == 32)
            },
    {
        let new_secret_data = match crypto.decrypt_oaep(
            response.new_secret_encrypted.as_slice(),
            None,
        ) {
            Ok(data) => data,
            Err(e) => {
                return Err(e);
            },
        };
        if new_secret_data.len() != 32 {
            let mut data = new_secret_data;
            crate::tpm::wipe(&mut data);
            return Err(AgentError::CryptoError("Invalid secret length".to_owned()));
        }
        let metadata = SecretMetadata {
            version: response.version,
            state: SecretState::Active,
            valid_from: response.valid_from,
            valid_until: response.valid_until,
            grace_until: Some(response.grace_until),
            created_at: now,
            last_used_at: None,
            rotation_source: if forced {
                RotationSource::Manual
            } else {
                RotationSource::Automatic
            },
            invalidation_reason: None,
        };
        let ghost data_view = new_secret_data@;
        let secret = Secret { data: new_secret_data, metadata };
        match manager.store_secret(secret, response.version, now) {
            Ok(_) => {
                proof {
                    assert(final(manager).metas().last() == MetaView {
                        last_used_at: Some(now),
                        ..metadata@
                    });
                }
                Ok(response.version)
            },
            Err(e) => Err(e),
        }
    }

    /// Retires expired GRACE versions; see the store's `cleanup_expired`.
    pub fn cleanup_expired(&self, manager: &mut SecretManager, now: i64) -> (r: AgentResult<
        usize,
    >)
        requires
            old(manager).wf(),
        ensures
            final(manager).wf(),
            final(manager).metas() == crate::secret::spec_cleanup(old(manager).metas(), now),
            r matches Ok(n) && n == crate::secret::count_expired(old(manager).metas(), now),
    {
        manager.cleanup_expired(now)
    }
}

/// The request document sent to the server:
/// `{"agent_id":...,"current_version":n,"timestamp":...,"nonce":...,"signature":...}`
/// with the timestamp as RFC 3339 text, the nonce as hex text, and the
/// signature base64.
pub open spec fn request_doc(req: &RotateSecretRequest) -> JsonV {
    JsonV::Obj(
        seq![
            (
                seq![97u8, 103u8, 101u8, 110u8, 116u8, 95u8, 105u8, 100u8],
                JsonV::Str(encode_utf8(req.agent_id@)),
            ),
            (
                seq![99u8, 117u8, 114u8, 114u8, 101u8, 110u8, 116u8, 95u8, 118u8, 101u8,
                    114u8, 115u8, 105u8, 111u8, 110u8],
                JsonV::Num(JsonNum { neg: false, mag: req.current_version }),
            ),
            (
                seq![116u8, 105u8, 109u8, 101u8, 115u8, 116u8, 97u8, 109u8, 112u8],
                JsonV::Str(crate::persist::rfc3339_of(req.timestamp)),
            ),
            (seq![110u8, 111u8, 110u8, 99u8, 101u8], JsonV::Str(req.nonce@)),
            (
                seq![115u8, 105u8, 103u8, 110u8, 97u8, 116u8, 117u8, 114u8, 101u8],
                JsonV::Str(req.signature@),
            ),
        ],
    )
}

/// Renders the request body for the wire.
pub fn render_rotation_request(req: &RotateSecretRequest) -> (r: AgentResult<Vec<u8>>)
    ensures
        r matches Ok(bytes) ==> ts_ok(req.timestamp) && bytes@ == crate::json::spec_render(
            request_doc(req),
        ),
{
    if !crate::types::ts_ok_exec(req.timestamp) {
        return Err(AgentError::InternalError("timestamp not representable".to_owned()));
    }
    let mut fields: Vec<(Vec<u8>, Json)> = Vec::new();
    let mut n_agent: Vec<u8> = Vec::new();
    n_agent.push(97);
    n_agent.push(103);
    n_agent.push(101);
    n_agent.push(110);
    n_agent.push(116);
    n_agent.push(95);
    n_agent.push(105);
    n_agent.push(100);
    fields.push((n_agent, Json::Str(crate::persist::str_to_bytes(req.agent_id.as_str()))));
    let mut n_cur: Vec<u8> = Vec::new();
    n_cur.push(99);
    n_cur.push(117);
    n_cur.push(114);
    n_cur.push(114);
    n_cur.push(101);
    n_cur.push(110);
    n_cur.push(116);
    n_cur.push(95);
    n_cur.push(118);
    n_cur.push(101);
    n_cur.push(114);
    n_cur.push(115);
    n_cur.push(105);
    n_cur.push(111);
    n_cur.push(110);
    fields.push((n_cur, Json::Num(JsonNum { neg: false, mag: req.current_version })));
    let mut n_ts: Vec<u8> = Vec::new();
    n_ts.push(116);
    n_ts.push(105);
    n_ts.push(109);
    n_ts.push(101);
    n_ts.push(115);
    n_ts.push(116);
    n_ts.push(97);
    n_ts.push(109);
    n_ts.push(112);
    fields.push((n_ts, Json::Str(crate::persist::format_rfc3339(req.timestamp))));
    let mut n_nonce: Vec<u8> = Vec::new();
    n_nonce.push(110);
    n_nonce.push(111);
    n_nonce.push(110);
    n_nonce.push(99);
    n_nonce.push(101);
    fields.push((n_nonce, Json::Str(crate::persist::str_bytes_copy(&req.nonce))));
    let mut n_sig: Vec<u8> = Vec::new();
    n_sig.push(115);
    n_sig.push(105);
    n_sig.push(103);
    n_sig.push(110);
    n_sig.push(97);
    n_sig.push(116);
    n_sig.push(117);
    n_sig.push(114);
    n_sig.push(101);
    fields.push((n_sig, Json::Str(crate::persist::str_bytes_copy(&req.signature))));
    let doc = Json::Obj(fields);
    proof {
        let fs = doc->Obj_0@;
        crate::json::lemma_view_members(fs, 0);
        assert(crate::json::view_members(fs, 0) =~~= request_doc(req)->Obj_0);
    }
    Ok(crate::json::render(&doc))
}

/// The bytes the server signs over a rotation response: the base64
/// envelope, the version, and the three RFC 3339 window stamps,
/// concatenated.
pub open spec fn response_signing_payload(resp: &RotateSecretResponse) -> Seq<u8> {
    crate::crypto::b64_of(resp.new_secret_encrypted@) + dec_of(resp.version as nat) + rfc3339_of(
        resp.valid_from,
    ) + rfc3339_of(resp.valid_until) + rfc3339_of(resp.grace_until)
}

/// Builds the exact bytes the server's response signature covers.
pub fn render_response_payload(resp: &RotateSecretResponse) -> (r: AgentResult<Vec<u8>>)
    ensures
        r matches Ok(bytes) ==> bytes@ == response_signing_payload(resp),
        !(ts_ok(resp.valid_from) && ts_ok(resp.valid_until) && ts_ok(resp.grace_until)) ==> (r
            matches Err(e) && e is RotationFailed),
{
    if !(crate::types::ts_ok_exec(resp.valid_from) && crate::types::ts_ok_exec(resp.valid_until)
        && crate::types::ts_ok_exec(resp.grace_until)) {
        return Err(AgentError::RotationFailed("response window not representable".to_owned()));
    }
    let mut out = crate::crypto::b64_encode(resp.new_secret_encrypted.as_slice());
    crate::json::push_dec(&mut out, resp.version);
    let mut vf = crate::persist::format_rfc3339(resp.valid_from);
    out.append(&mut vf);
    let mut vu = crate::persist::format_rfc3339(resp.valid_until);
    out.append(&mut vu);
    let mut gu = crate::persist::format_rfc3339(resp.grace_until);
    out.append(&mut gu);
    proof {
        assert(out@ =~= response_signing_payload(resp));
    }
    Ok(out)
}

/// Powers of two are monotone.
proof fn lemma_pow2_mono(a: nat, b: nat)
    requires
        a <= b,
    ensures
        pow2(a) <= pow2(b),
    decreases b,
{
    if a < b {
        lemma_pow2_mono(a, (b - 1) as nat);
    }
}

} // verus!
