//! The core engine: composes the store, validator, rotation engine,
//! degraded-mode supervisor and audit log, and gives the runtime's periodic
//! tasks their decision functions. Timers, sockets and the shutdown
//! notifier are the runtime's part.

use vstd::prelude::*;
use crate::audit::AuditLogger;
use crate::config::Config;
use crate::degraded::DegradedMode;
use crate::json::Json;
use crate::license::LicenseValidator;
use crate::rotation::RotationManager;
use crate::secret::SecretManager;
use crate::tpm::TpmManager;
use crate::types::{AgentResult, SecretInfo, SecretState, SystemStatus, TpmStatus};

verus! {

/// `info` is the status entry of the GRACE record at some index of the
/// store: it mirrors that record's fields, and its remaining time is
/// non-negative.
pub open spec fn grace_info_ok(s: &SecretManager, info: SecretInfo, now: i64) -> bool {
    &&& s.has_version(info.version)
    &&& {
        let m = s.metas()[s.idx(info.version)];
        &&& m.state == SecretState::Grace
        &&& info.state == SecretState::Grace
        &&& info.valid_from == m.valid_from
        &&& info.valid_until == m.valid_until
        &&& info.grace_until == m.grace_until
    }
    &&& (info.remaining_seconds matches Some(x) ==> x >= 0)
}

/// The composed daemon state.
pub struct CoreEngine {
    pub secret_manager: SecretManager,
    pub validator: LicenseValidator,
    pub rotation_manager: RotationManager,
    pub degraded: DegradedMode,
    pub audit: AuditLogger,
    pub tpm_status: TpmStatus,
}

impl CoreEngine {
    pub open spec fn wf(&self) -> bool {
        self.secret_manager.wf() && self.degraded.wf()
    }

    /// Builds the engine from a validated configuration, a sealing
    /// provider and an agent identifier. Loading the persisted state into
    /// the store afterwards, and handing rotation a key pair, is the
    /// caller's part.
    pub fn new(config: &Config, tpm: TpmManager) -> (r: CoreEngine)
        requires
            tpm.wf(),
        ensures
            r.wf(),
            r.secret_manager.metas().len() == 0,
            !r.degraded.spec_active(),
            r.audit.log_len() == 0,
            !r.rotation_manager.in_progress(),
    {
        let tpm_status = tpm.get_status();
        let secret_manager = SecretManager::new(tpm);
        let threshold = match config.agent.rotation_threshold_seconds {
            Some(t) => t,
            None => 3600,
        };
        let rotation_manager = RotationManager::new(config.agent.id.clone(), threshold);
        let degraded = DegradedMode::new(
            config.degraded_mode.enabled,
            config.degraded_mode.grace_period_days,
            config.degraded_mode.retry_interval_seconds,
            config.degraded_mode.auto_deactivate_on_reconnect,
            clone_u64s(&config.degraded_mode.alert_thresholds_hours),
        );
        CoreEngine {
            secret_manager,
            validator: LicenseValidator::new(),
            rotation_manager,
            degraded,
            audit: AuditLogger::new(),
            tpm_status,
        }
    }

    /// The decision after a failed rotation attempt: with no ACTIVE secret
    /// left and the supervisor enabled, degraded mode is entered (once) and
    /// the activation is audited. Returns whether this call entered it;
    /// otherwise nothing changes.
    pub fn handle_rotation_failure(&mut self, now: i64) -> (r: bool)
        requires
            old(self).wf(),
        ensures
            final(self).wf(),
            r == (old(self).secret_manager.active() is None
                && old(self).degraded.spec_enabled() && !old(self).degraded.spec_active()),
            r ==> final(self).degraded.spec_active() && final(self).degraded.spec_activated_at()
                == Some(now) && final(self).degraded.spec_grace_end() == Some(
                crate::degraded::sat_add(now, old(self).degraded.spec_grace_days() * 86400),
            ) && final(self).audit.log_len() == old(self).audit.log_len() + 1 && final(self).audit.event_name(old(self).audit.log_len()) == "degraded_mode_activated"@ && final(self).audit.event_level(old(self).audit.log_len())
                == crate::audit::AuditLevel::Warning,
            !r ==> final(self).degraded == old(self).degraded && final(self).audit == old(self).audit,
            final(self).secret_manager == old(self).secret_manager,
    {
        let no_active = match self.secret_manager.active_version() {
            Some(_) => false,
            None => true,
        };
        if !no_active {
            return false;
        }
        let activated = self.degraded.activate(now);
        if activated {
            self.audit.degraded_mode_activated(now, "No active secret after failed rotation");
        }
        activated
    }

    /// The decision after a successful rotation: when configured to, the
    /// supervisor leaves degraded mode and the automatic deactivation is
    /// audited. Returns whether this call left it; otherwise nothing
    /// changes.
    pub fn handle_rotation_success(&mut self, now: i64) -> (r: bool)
        requires
            old(self).wf(),
        ensures
            final(self).wf(),
            r == (old(self).degraded.spec_active() && old(self).degraded.spec_auto_deactivate()),
            r ==> !final(self).degraded.spec_active() && final(self).degraded.spec_activated_at() is None && final(self).degraded.spec_grace_end()
                is None && final(self).audit.log_len() == old(self).audit.log_len() + 1 && final(self).audit.event_name(old(self).audit.log_len()) == "degraded_mode_deactivated_auto"@,
            !r ==> final(self).degraded == old(self).degraded && final(self).audit == old(self).audit,
            final(self).secret_manager == old(self).secret_manager,
    {
        if !(self.degraded.is_active() && self.degraded.auto_deactivate()) {
            return false;
        }
        let duration = match self.degraded.deactivate(now) {
            Some(d) => d,
            None => 0,
        };
        let mut fields: Vec<(Vec<u8>, Json)> = Vec::new();
        fields.push(
            (
                duration_label(),
                Json::Num(
                    crate::json::JsonNum { neg: false, mag: if duration < 0 {
                        0
                    } else {
                        duration as u64
                    } },
                ),
            ),
        );
        self.audit.info(now, "degraded_mode_deactivated_auto", Json::Obj(fields));
        true
    }

    /// The degraded-mode retry tick: reports whether rotation should be
    /// retried (exactly when degraded mode is active), and once the grace
    /// horizon has passed, warns that it has.
    pub fn on_retry_tick(&mut self, now: i64) -> (r: bool)
        requires
            old(self).wf(),
        ensures
            final(self).wf(),
            r == old(self).degraded.spec_active(),
            final(self).degraded == old(self).degraded,
            final(self).secret_manager == old(self).secret_manager,
            (old(self).degraded.spec_active() && (old(self).degraded.spec_grace_end()
                matches Some(g) && now > g)) ==> final(self).audit.log_len() == old(self).audit.log_len() + 1 && final(self).audit.event_name(old(self).audit.log_len())
                == "degraded_mode_grace_expired"@ && final(self).audit.event_level(
                old(self).audit.log_len(),
            ) == crate::audit::AuditLevel::Warning,
            !(old(self).degraded.spec_active() && (old(self).degraded.spec_grace_end()
                matches Some(g) && now > g)) ==> final(self).audit == old(self).audit,
    {
        if !self.degraded.is_active() {
            return false;
        }
        if self.degraded.grace_expired(now) {
            self.audit.warning(now, "degraded_mode_grace_expired", Json::Null);
        }
        true
    }

    /// The hourly cleanup tick: retires expired GRACE versions.
    pub fn on_cleanup_tick(&mut self, now: i64) -> (r: AgentResult<usize>)
        requires
            old(self).wf(),
        ensures
            final(self).wf(),
            final(self).secret_manager.metas() == crate::secret::spec_cleanup(
                old(self).secret_manager.metas(),
                now,
            ),
            r matches Ok(n) && n == crate::secret::count_expired(
                old(self).secret_manager.metas(),
                now,
            ),
    {
        self.secret_manager.cleanup_expired(now)
    }

    /// The hourly alert tick: when an alert tier is due, it is audited.
    /// Returns the tier, if one fired.
    pub fn on_alert_tick(&mut self, now: i64) -> (r: Option<u64>)
        requires
            old(self).wf(),
        ensures
            final(self).wf(),
            r is Some ==> old(self).degraded.spec_active() && final(self).audit.log_len() == old(self).audit.log_len() + 1 && final(self).audit.event_name(old(self).audit.log_len())
                == "degraded_mode_alert"@,
            final(self).secret_manager == old(self).secret_manager,
    {
        let due = self.degraded.alert_due(now);
        match due {
            Some(threshold) => {
                let mut fields: Vec<(Vec<u8>, Json)> = Vec::new();
                fields.push(
                    (
                        threshold_label(),
                        Json::Num(crate::json::JsonNum { neg: false, mag: threshold }),
                    ),
                );
                self.audit.warning(now, "degraded_mode_alert", Json::Obj(fields));
                Some(threshold)
            },
            None => None,
        }
    }

    /// Status for the management surface: the active version's window, the
    /// GRACE versions, sealing, validation counters, degraded mode, and
    /// when rotation is next owed.
    pub fn get_status(&self, now: i64) -> (r: SystemStatus)
        requires
            self.wf(),
        ensures
            r.active_secret is Some <==> self.secret_manager.active() is Some,
            r.active_secret matches Some(info) ==> {
                let v = self.secret_manager.active()->Some_0;
                &&& info.version == v
                &&& info.state == SecretState::Active
                &&& info.valid_from == self.secret_manager.metas()[self.secret_manager.idx(
                    v,
                )].valid_from
                &&& info.valid_until == self.secret_manager.metas()[self.secret_manager.idx(
                    v,
                )].valid_until
                &&& info.grace_until == self.secret_manager.metas()[self.secret_manager.idx(
                    v,
                )].grace_until
                &&& (info.remaining_seconds matches Some(x) && x >= 0)
            },
            forall|k: int|
                0 <= k < r.grace_secrets@.len() ==> grace_info_ok(
                    &self.secret_manager,
                    #[trigger] r.grace_secrets@[k],
                    now,
                ),
            forall|j: int|
                0 <= j < self.secret_manager.metas().len() && (
                #[trigger] self.secret_manager.metas()[j]).state == SecretState::Grace
                    ==> exists|k: int|
                    0 <= k < r.grace_secrets@.len() && (#[trigger] r.grace_secrets@[k]).version
                        == self.secret_manager.metas()[j].version,
            forall|a: int, b: int|
                0 <= a < b < r.grace_secrets@.len() ==> (#[trigger] r.grace_secrets@[a]).version
                    < (#[trigger] r.grace_secrets@[b]).version,
            r.degraded_mode.active == self.degraded.spec_active(),
            r.degraded_mode.activated_at == self.degraded.spec_activated_at(),
            r.degraded_mode.grace_period_end == self.degraded.spec_grace_end(),
    {
        let active_secret: Option<SecretInfo> = match self.secret_manager.active_version() {
            Some(v) => {
                proof {
                    let w = choose|i: int|
                        0 <= i < self.secret_manager.metas().len()
                            && self.secret_manager.metas()[i].version == v;
                    assert(self.secret_manager.metas()[w].version == v);
                }
                match self.secret_manager.get_metadata(v) {
                    Some(m) => {
                        let remaining128: i128 = (m.valid_until as i128) - (now as i128);
                        let remaining: i64 = if remaining128 < 0 {
                            0
                        } else if remaining128 > i64::MAX as i128 {
                            i64::MAX
                        } else {
                            remaining128 as i64
                        };
                        proof {
                            assert(self.secret_manager.metas()[self.secret_manager.idx(v)].state
                                == SecretState::Active);
                        }
                        Some(
                            SecretInfo {
                                version: m.version,
                                state: m.state,
                                valid_from: m.valid_from,
                                valid_until: m.valid_until,
                                grace_until: m.grace_until,
                                remaining_seconds: Some(remaining),
                            },
                        )
                    },
                    None => None,
                }
            },
            None => None,
        };
        let mut grace_secrets: Vec<SecretInfo> = Vec::new();
        let ghost sm = &self.secret_manager;
        let versions = self.secret_manager.list_versions();
        let ghost mut sources: Seq<int> = Seq::empty();
        let mut i: usize = 0;
        while i < versions.len()
            invariant
                self.wf(),
                i <= versions@.len(),
                versions@.len() == self.secret_manager.metas().len(),
                forall|k: int|
                    0 <= k < versions@.len() ==> versions@[k] == (
                    #[trigger] self.secret_manager.metas()[k]).version,
                sources.len() == grace_secrets@.len(),
                forall|k: int|
                    0 <= k < grace_secrets@.len() ==> 0 <= #[trigger] sources[k] < i
                        && grace_secrets@[k].version == self.secret_manager.metas()[sources[k]].version,
                forall|a: int, b: int| 0 <= a < b < sources.len() ==> sources[a] < sources[b],
                forall|k: int|
                    0 <= k < grace_secrets@.len() ==> grace_info_ok(
                        &self.secret_manager,
                        #[trigger] grace_secrets@[k],
                        now,
                    ),
                forall|j: int|
                    0 <= j < i && (#[trigger] self.secret_manager.metas()[j]).state
                        == SecretState::Grace ==> exists|k: int|
                        0 <= k < grace_secrets@.len() && (
                        #[trigger] grace_secrets@[k]).version == self.secret_manager.metas()[j].version,
            decreases versions@.len() - i,
        {
            let ghost pre_list = grace_secrets@;
            match self.secret_manager.get_metadata(versions[i]) {
                Some(m) => {
                    proof {
                        let v = versions@[i as int];
                        let w = self.secret_manager.idx(v);
                        if w != i {
                            if w < i {
                                assert(self.secret_manager.metas()[w].version
                                    < self.secret_manager.metas()[i as int].version);
                            } else {
                                assert(self.secret_manager.metas()[i as int].version
                                    < self.secret_manager.metas()[w].version);
                            }
                        }
                        assert(m@ == self.secret_manager.metas()[i as int]);
                    }
                    if m.state == SecretState::Grace {
                        let remaining: Option<i64> = match m.grace_until {
                            Some(g) => {
                                let d128: i128 = (g as i128) - (now as i128);
                                Some(
                                    if d128 < 0 {
                                        0
                                    } else if d128 > i64::MAX as i128 {
                                        i64::MAX
                                    } else {
                                        d128 as i64
                                    },
                                )
                            },
                            None => None,
                        };
                        grace_secrets.push(
                            SecretInfo {
                                version: m.version,
                                state: m.state,
                                valid_from: m.valid_from,
                                valid_until: m.valid_until,
                                grace_until: m.grace_until,
                                remaining_seconds: remaining,
                            },
                        );
                        proof {
                            sources = sources.push(i as int);
                            let v = versions@[i as int];
                            let w = self.secret_manager.idx(v);
                            assert(grace_info_ok(
                                &self.secret_manager,
                                grace_secrets@[grace_secrets@.len() - 1],
                                now,
                            ));
                            assert(forall|k: int|
                                0 <= k < pre_list.len() ==> grace_secrets@[k]
                                    == #[trigger] pre_list[k]);
                        }
                    }
                },
                None => {
                    proof {
                        assert(self.secret_manager.has_version(versions@[i as int]));
                        assert(false);
                    }
                },
            }
            i += 1;
        }
        proof {
            assert forall|a: int, b: int|
                0 <= a < b < grace_secrets@.len() implies (
            #[trigger] grace_secrets@[a]).version < (#[trigger] grace_secrets@[b]).version by {
                assert(sources[a] < sources[b]);
                assert(self.secret_manager.metas()[sources[a]].version
                    < self.secret_manager.metas()[sources[b]].version);
            }
        }
        let next_rotation: Option<i64> = match &active_secret {
            Some(info) => Some(info.valid_until),
            None => None,
        };
        SystemStatus {
            active_secret,
            grace_secrets,
            tpm_status: clone_tpm_status(&self.tpm_status),
            license_status: self.validator.get_stats(now),
            degraded_mode: self.degraded.status(now),
            next_rotation,
        }
    }

    /// The snapshot to persist at shutdown: exactly `save_state` of the
    /// store; writing it is the caller's part.
    pub fn shutdown_snapshot(&self, now: i64) -> (r: AgentResult<Vec<u8>>)
        requires
            self.wf(),
        ensures
            !crate::types::ts_ok(now) ==> (r matches Err(e) && e is InternalError),
            crate::types::ts_ok(now) ==> (r matches Ok(bytes) && {
                &&& bytes@ == crate::json::spec_render(
                    crate::persist::state_doc(
                        self.secret_manager.metas(),
                        self.secret_manager.active(),
                        now,
                    ),
                )
                &&& crate::persist::state_of_doc(
                    crate::persist::state_doc(
                        self.secret_manager.metas(),
                        self.secret_manager.active(),
                        now,
                    ),
                ) == Some((self.secret_manager.metas(), self.secret_manager.active()))
            }),
    {
        self.secret_manager.save_state(now)
    }
}

fn clone_u64s(v: &Vec<u64>) -> (r: Vec<u64>)
    ensures
        r@ == v@,
{
    let mut out: Vec<u64> = Vec::new();
    let mut i: usize = 0;
    while i < v.len()
        invariant
            i <= v@.len(),
            out@ == v@.subrange(0, i as int),
        decreases v@.len() - i,
    {
        out.push(v[i]);
        proof {
            assert(out@ =~= v@.subrange(0, i + 1));
        }
        i += 1;
    }
    proof {
        assert(v@.subrange(0, v@.len() as int) =~= v@);
    }
    out
}

fn clone_tpm_status(s: &TpmStatus) -> (r: TpmStatus)
    ensures
        r.available == s.available,
{
    TpmStatus {
        available: s.available,
        version: match &s.version {
            Some(t) => Some(t.clone()),
            None => None,
        },
        manufacturer: match &s.manufacturer {
            Some(t) => Some(t.clone()),
            None => None,
        },
        firmware_version: match &s.firmware_version {
            Some(t) => Some(t.clone()),
            None => None,
        },
        keys_loaded: s.keys_loaded,
        nv_space_used: s.nv_space_used,
    }
}

fn duration_label() -> (r: Vec<u8>)
{
    let mut v: Vec<u8> = Vec::new();
    v.push(100);
    v.push(117);
    v.push(114);
    v.push(97);
    v.push(116);
    v.push(105);
    v.push(111);
    v.push(110);
    v.push(95);
    v.push(115);
    v.push(101);
    v.push(99);
    v.push(111);
    v.push(110);
    v.push(100);
    v.push(115);
    v
}

fn threshold_label() -> (r: Vec<u8>)
{
    let mut v: Vec<u8> = Vec::new();
    v.push(116);
    v.push(104);
    v.push(114);
    v.push(101);
    v.push(115);
    v.push(104);
    v.push(111);
    v.push(108);
    v.push(100);
    v
}

} // verus!
