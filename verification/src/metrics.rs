//! Operational counters. The process keeps them as plain integers; an
//! exporter in the runtime may publish them.

use vstd::prelude::*;

verus! {

/// The agent's counters and gauges.
pub struct Metrics {
    pub secrets_active: u64,
    pub secrets_grace: u64,
    pub secrets_invalidated: u64,
    pub rotations_total: u64,
    pub rotations_failed: u64,
    pub validations_total: u64,
    pub validations_successful: u64,
    pub validations_failed: u64,
    pub degraded_mode_active: bool,
    pub tpm_available: bool,
    pub last_rotation_timestamp: Option<i64>,
}

impl Metrics {
    /// All counters start at zero.
    pub fn new() -> (r: Metrics)
        ensures
            r.rotations_total == 0,
            r.rotations_failed == 0,
            r.validations_total == 0,
            r.validations_successful == 0,
            r.validations_failed == 0,
            !r.degraded_mode_active,
    {
        Metrics {
            secrets_active: 0,
            secrets_grace: 0,
            secrets_invalidated: 0,
            rotations_total: 0,
            rotations_failed: 0,
            validations_total: 0,
            validations_successful: 0,
            validations_failed: 0,
            degraded_mode_active: false,
            tpm_available: false,
            last_rotation_timestamp: None,
        }
    }

    /// Records the per-state secret counts.
    pub fn update_secrets(&mut self, active: u64, grace: u64, invalidated: u64)
        ensures
            final(self).secrets_active == active,
            final(self).secrets_grace == grace,
            final(self).secrets_invalidated == invalidated,
            final(self).rotations_total == old(self).rotations_total,
    {
        self.secrets_active = active;
        self.secrets_grace = grace;
        self.secrets_invalidated = invalidated;
    }

    /// Records a completed rotation (saturating).
    pub fn record_rotation_success(&mut self, now: i64)
        ensures
            final(self).rotations_total as int == (if old(self).rotations_total < u64::MAX {
                old(self).rotations_total + 1int
            } else {
                u64::MAX as int
            }),
            final(self).last_rotation_timestamp == Some(now),
    {
        if self.rotations_total < u64::MAX {
            self.rotations_total = self.rotations_total + 1;
        }
        self.last_rotation_timestamp = Some(now);
    }

    /// Records a failed rotation (saturating).
    pub fn record_rotation_failure(&mut self)
        ensures
            final(self).rotations_failed as int == (if old(self).rotations_failed < u64::MAX {
                old(self).rotations_failed + 1int
            } else {
                u64::MAX as int
            }),
    {
        if self.rotations_failed < u64::MAX {
            self.rotations_failed = self.rotations_failed + 1;
        }
    }

    /// Records one validation and its outcome (saturating).
    pub fn record_validation(&mut self, success: bool)
        ensures
            final(self).validations_total as int == (if old(self).validations_total < u64::MAX {
                old(self).validations_total + 1int
            } else {
                u64::MAX as int
            }),
            success ==> final(self).validations_failed == old(self).validations_failed,
            !success ==> final(self).validations_successful == old(self).validations_successful,
    {
        if self.validations_total < u64::MAX {
            self.validations_total = self.validations_total + 1;
        }
        if success {
            if self.validations_successful < u64::MAX {
                self.validations_successful = self.validations_successful + 1;
            }
        } else {
            if self.validations_failed < u64::MAX {
                self.validations_failed = self.validations_failed + 1;
            }
        }
    }

    /// Records the supervisor state.
    pub fn update_degraded_mode(&mut self, active: bool)
        ensures
            final(self).degraded_mode_active == active,
    {
        self.degraded_mode_active = active;
    }

    /// Records the sealing backend's availability.
    pub fn update_tpm_status(&mut self, available: bool)
        ensures
            final(self).tpm_available == available,
    {
        self.tpm_available = available;
    }
}

} // verus!
