//! The degraded-mode supervisor: entered when rotation fails with no
//! ACTIVE secret left, retried on a cadence, alerted in tiers, and left on
//! the first successful rotation.

use vstd::prelude::*;
use crate::types::DegradedModeStatus;

verus! {

/// Saturating sum of a timestamp and a span, kept in `i64`.
pub open spec fn sat_add(t: i64, span: int) -> i64 {
    if t + span > i64::MAX {
        i64::MAX
    } else if t + span < i64::MIN {
        i64::MIN
    } else {
        (t + span) as i64
    }
}

/// The supervisor state and its configuration.
pub struct DegradedMode {
    enabled: bool,
    active: bool,
    activated_at: Option<i64>,
    grace_period_end: Option<i64>,
    grace_period_days: u64,
    retry_interval_seconds: u64,
    auto_deactivate_on_reconnect: bool,
    alert_thresholds_hours: Vec<u64>,
}

impl DegradedMode {
    pub closed spec fn spec_enabled(&self) -> bool {
        self.enabled
    }

    pub closed spec fn spec_active(&self) -> bool {
        self.active
    }

    pub closed spec fn spec_activated_at(&self) -> Option<i64> {
        self.activated_at
    }

    pub closed spec fn spec_grace_end(&self) -> Option<i64> {
        self.grace_period_end
    }

    pub closed spec fn spec_auto_deactivate(&self) -> bool {
        self.auto_deactivate_on_reconnect
    }

    pub closed spec fn spec_retry_interval(&self) -> u64 {
        self.retry_interval_seconds
    }

    pub closed spec fn spec_thresholds(&self) -> Seq<u64> {
        self.alert_thresholds_hours@
    }

    pub closed spec fn spec_grace_days(&self) -> u64 {
        self.grace_period_days
    }

    /// Active mode always records when it started and when its grace
    /// horizon ends.
    pub open spec fn wf(&self) -> bool {
        self.spec_active() ==> self.spec_activated_at() is Some && self.spec_grace_end() is Some
    }

    /// A fresh, inactive supervisor with the given configuration.
    pub fn new(
        enabled: bool,
        grace_period_days: u64,
        retry_interval_seconds: u64,
        auto_deactivate_on_reconnect: bool,
        alert_thresholds_hours: Vec<u64>,
    ) -> (r: DegradedMode)
        ensures
            r.wf(),
            !r.spec_active(),
            r.spec_enabled() == enabled,
            r.spec_activated_at() is None,
            r.spec_grace_end() is None,
            r.spec_auto_deactivate() == auto_deactivate_on_reconnect,
            r.spec_retry_interval() == retry_interval_seconds,
            r.spec_thresholds() == alert_thresholds_hours@,
            r.spec_grace_days() == grace_period_days,
    {
        DegradedMode {
            enabled,
            active: false,
            activated_at: None,
            grace_period_end: None,
            grace_period_days,
            retry_interval_seconds,
            auto_deactivate_on_reconnect,
            alert_thresholds_hours,
        }
    }

    pub fn is_active(&self) -> (r: bool)
        ensures
            r == self.spec_active(),
    {
        self.active
    }

    pub fn is_enabled(&self) -> (r: bool)
        ensures
            r == self.spec_enabled(),
    {
        self.enabled
    }

    pub fn auto_deactivate(&self) -> (r: bool)
        ensures
            r == self.spec_auto_deactivate(),
    {
        self.auto_deactivate_on_reconnect
    }

    pub fn retry_interval_seconds(&self) -> (r: u64)
        ensures
            r == self.spec_retry_interval(),
    {
        self.retry_interval_seconds
    }

    /// Activates degraded mode at `now`: records the activation instant and
    /// the grace horizon `now + grace_days` days out (saturating).
    /// Idempotent: when already active, nothing changes; when the
    /// supervisor is disabled, nothing happens. Returns whether this call
    /// activated it.
    pub fn activate(&mut self, now: i64) -> (r: bool)
        requires
            old(self).wf(),
        ensures
            final(self).wf(),
            r == (old(self).spec_enabled() && !old(self).spec_active()),
            old(self).spec_active() || !old(self).spec_enabled() ==> *final(self) == *old(self),
            r ==> final(self).spec_active() && final(self).spec_activated_at() == Some(now)
                && final(self).spec_grace_end() == Some(
                sat_add(now, old(self).spec_grace_days() * 86400),
            ),
            final(self).spec_enabled() == old(self).spec_enabled(),
            final(self).spec_auto_deactivate() == old(self).spec_auto_deactivate(),
            final(self).spec_thresholds() == old(self).spec_thresholds(),
            final(self).spec_retry_interval() == old(self).spec_retry_interval(),
            final(self).spec_grace_days() == old(self).spec_grace_days(),
    {
        if !self.enabled || self.active {
            return false;
        }
        let span: i128 = (self.grace_period_days as i128) * 86400;
        let end128: i128 = (now as i128) + span;
        let end: i64 = if end128 > i64::MAX as i128 {
            i64::MAX
        } else {
            end128 as i64
        };
        proof {
            assert(end == sat_add(now, old(self).spec_grace_days() * 86400));
        }
        self.active = true;
        self.activated_at = Some(now);
        self.grace_period_end = Some(end);
        true
    }

    /// Deactivates degraded mode at `now`, returning how long it had been
    /// active (saturating at zero for a clock that moved backwards).
    /// Nothing changes when it was not active.
    pub fn deactivate(&mut self, now: i64) -> (r: Option<i64>)
        requires
            old(self).wf(),
        ensures
            final(self).wf(),
            !final(self).spec_active(),
            old(self).spec_active() ==> final(self).spec_activated_at() is None && final(self).spec_grace_end() is None,
            !old(self).spec_active() ==> r is None && *final(self) == *old(self),
            old(self).spec_active() ==> (r matches Some(d) && {
                let at = old(self).spec_activated_at()->Some_0;
                d == (if now - at > i64::MAX {
                    i64::MAX
                } else if now - at < 0 {
                    0
                } else {
                    (now - at) as i64
                })
            }),
            final(self).spec_enabled() == old(self).spec_enabled(),
            final(self).spec_auto_deactivate() == old(self).spec_auto_deactivate(),
            final(self).spec_thresholds() == old(self).spec_thresholds(),
            final(self).spec_retry_interval() == old(self).spec_retry_interval(),
            final(self).spec_grace_days() == old(self).spec_grace_days(),
    {
        if !self.active {
            return None;
        }
        let at = match self.activated_at {
            Some(at) => at,
            None => now,
        };
        let d128: i128 = (now as i128) - (at as i128);
        let duration: i64 = if d128 < 0 {
            0
        } else if d128 > i64::MAX as i128 {
            i64::MAX
        } else {
            d128 as i64
        };
        self.active = false;
        self.activated_at = None;
        self.grace_period_end = None;
        Some(duration)
    }

    /// The alert tier due at `now`, if any: the configured threshold that
    /// equals the whole hours elapsed since activation.
    pub fn alert_due(&self, now: i64) -> (r: Option<u64>)
        requires
            self.wf(),
    ensures
            r matches Some(t) ==> self.spec_active() && {
                let at = self.spec_activated_at()->Some_0;
                &&& now >= at
                &&& exists|i: int| 0 <= i < self.spec_thresholds().len() && self.spec_thresholds()[i] == t
                &&& (now - at) / 3600 == t
            },
            !self.spec_active() ==> r is None,
    {
        if !self.active {
            return None;
        }
        let at = match self.activated_at {
            Some(at) => at,
            None => {
                return None;
            },
        };
        if now < at {
            return None;
        }
        let elapsed128: i128 = ((now as i128) - (at as i128)) / 3600;
        let mut i: usize = 0;
        while i < self.alert_thresholds_hours.len()
            invariant
                i <= self.spec_thresholds().len(),
                elapsed128 == ((now as int) - (at as int)) / 3600,
                now >= at,
                self.spec_active(),
                self.spec_activated_at() == Some(at),
            decreases self.spec_thresholds().len() - i,
        {
            let t = self.alert_thresholds_hours[i];
            if elapsed128 == t as i128 {
                proof {
                    assert(self.spec_thresholds()[i as int] == t);
                }
                return Some(t);
            }
            i += 1;
        }
        None
    }

    /// Whether the grace horizon has passed at `now`.
    pub fn grace_expired(&self, now: i64) -> (r: bool)
        ensures
            r == (self.spec_active() && (self.spec_grace_end() matches Some(g) && now > g)),
    {
        self.active && match self.grace_period_end {
            Some(g) => now > g,
            None => false,
        }
    }

    /// Status for the management surface.
    pub fn status(&self, now: i64) -> (r: DegradedModeStatus)
        ensures
            r.active == self.spec_active(),
            r.activated_at == self.spec_activated_at(),
            r.grace_period_end == self.spec_grace_end(),
    {
        let duration_seconds: Option<i64> = match self.activated_at {
            Some(at) => {
                let d128: i128 = (now as i128) - (at as i128);
                Some(
                    if d128 < i64::MIN as i128 {
                        i64::MIN
                    } else if d128 > i64::MAX as i128 {
                        i64::MAX
                    } else {
                        d128 as i64
                    },
                )
            },
            None => None,
        };
        let remaining_seconds: Option<i64> = match self.grace_period_end {
            Some(g) => {
                let d128: i128 = (g as i128) - (now as i128);
                Some(
                    if d128 < 0 {
                        0
                    } else if d128 > i64::MAX as i128 {
                        i64::MAX
                    } else {
                        d128 as i64
                    },
                )
            },
            None => None,
        };
        DegradedModeStatus {
            active: self.active,
            activated_at: self.activated_at,
            duration_seconds,
            grace_period_end: self.grace_period_end,
            remaining_seconds,
        }
    }
}

} // verus!
