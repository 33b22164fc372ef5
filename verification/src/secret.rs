//! The secret store: version -> metadata, the single active-version pointer,
//! and the sealed key blobs, with the lifecycle invariants.
//!
//! Invariants kept by every operation (see `SecretManager::wf`):
//! at most one version is ACTIVE; a GRACE version's `grace_until` lies past
//! `valid_until` and not before `valid_from`; `active_version`, when set,
//! names an ACTIVE version; states only move forward along
//! ACTIVE -> GRACE -> INVALID, and INVALID is terminal.
//!
//! Persistence is split off: `save_state` / `load_state` (in `persist`)
//! produce and consume the snapshot bytes; writing them to disk atomically
//! is the caller's part.

use vstd::prelude::*;
use crate::persist::{meta_views, parse_state, render_state, state_doc, state_of_doc};
use crate::tpm::{unsealed, TpmManager};
use crate::types::{
    meta_ok, ts_ok, AgentError, AgentResult, MetaView, RotationSource, Secret, SecretMetadata,
    SecretState,
};

verus! {

/// Whether a read at `now` falls inside the validity or grace window.
pub open spec fn temporal_ok(m: MetaView, now: i64) -> bool {
    now <= m.valid_until || (m.grace_until matches Some(g) && now <= g)
}

/// Whether `get` may hand out this version at `now`.
pub open spec fn readable(m: MetaView, now: i64) -> bool {
    (m.state == SecretState::Active || m.state == SecretState::Grace) && temporal_ok(m, now)
}

/// The ACTIVE -> GRACE step a version takes when its successor is installed.
pub open spec fn demote(m: MetaView) -> MetaView {
    MetaView { state: SecretState::Grace, ..m }
}

/// Demotes the entry the active pointer names, if any.
pub open spec fn demote_active(metas: Seq<MetaView>, active: Option<u64>) -> Seq<MetaView> {
    metas.map_values(
        |m: MetaView|
            if active == Some(m.version) {
                demote(m)
            } else {
                m
            },
    )
}

/// Whether cleanup retires this version at `now`.
pub open spec fn grace_expired(m: MetaView, now: i64) -> bool {
    m.state == SecretState::Grace && (m.grace_until matches Some(g) && now > g)
}

/// What cleanup leaves of one record.
pub open spec fn cleanup_meta(m: MetaView, now: i64) -> MetaView {
    if grace_expired(m, now) {
        MetaView {
            state: SecretState::Invalid,
            invalidation_reason: Some("Grace period expired"@),
            ..m
        }
    } else {
        m
    }
}

/// What cleanup leaves of the whole record sequence.
pub open spec fn spec_cleanup(metas: Seq<MetaView>, now: i64) -> Seq<MetaView> {
    metas.map_values(|m: MetaView| cleanup_meta(m, now))
}

/// How many records cleanup retires.
pub open spec fn count_expired(metas: Seq<MetaView>, now: i64) -> int
    decreases metas.len(),
{
    if metas.len() == 0 {
        0
    } else {
        count_expired(metas.drop_last(), now) + if grace_expired(metas.last(), now) {
            1int
        } else {
            0int
        }
    }
}

/// Cleanup is idempotent: a second pass at the same instant changes nothing.
pub proof fn lemma_cleanup_idempotent(metas: Seq<MetaView>, now: i64)
    ensures
        spec_cleanup(spec_cleanup(metas, now), now) == spec_cleanup(metas, now),
{
    assert(spec_cleanup(spec_cleanup(metas, now), now) =~= spec_cleanup(metas, now)) by {
        assert(forall|i: int|
            0 <= i < metas.len() ==> cleanup_meta(cleanup_meta(#[trigger] metas[i], now), now)
                == cleanup_meta(metas[i], now));
    }
}

/// A loadable snapshot: records sorted by strictly increasing version,
/// each internally consistent, and the active pointer naming exactly the
/// ACTIVE records.
pub open spec fn snapshot_ok(metas: Seq<MetaView>, active: Option<u64>) -> bool {
    &&& (forall|i: int, j: int|
        0 <= i < j < metas.len() ==> metas[i].version < metas[j].version)
    &&& (forall|i: int| 0 <= i < metas.len() ==> meta_ok(#[trigger] metas[i]))
    &&& (forall|i: int|
        0 <= i < metas.len() ==> (((#[trigger] metas[i]).state == SecretState::Active) <==> active
            == Some(metas[i].version)))
    &&& (active matches Some(v) ==> exists|i: int|
        0 <= i < metas.len() && (#[trigger] metas[i]).version == v)
}

/// Adjacent ordering extends to all pairs.
proof fn lemma_sorted_pair(metas: Seq<MetaView>, i: int, j: int)
    requires
        forall|k: int| 0 < k < metas.len() ==> (#[trigger] metas[k - 1].version) < metas[k].version,
        0 <= i < j < metas.len(),
    ensures
        metas[i].version < metas[j].version,
    decreases j - i,
{
    assert(metas[j - 1].version < metas[j].version);
    if i < j - 1 {
        lemma_sorted_pair(metas, i, j - 1);
    }
}

/// Runtime check of `meta_ok`.
fn meta_ok_exec(m: &SecretMetadata) -> (r: bool)
    ensures
        r == meta_ok(m@),
{
    m.state != SecretState::Absent && (match m.grace_until {
        Some(g) => g > m.valid_until && g >= m.valid_from && crate::types::ts_ok_exec(g),
        None => true,
    }) && (match m.state {
        SecretState::Grace | SecretState::Active => matches!(m.grace_until, Some(_)),
        _ => true,
    }) && (matches!(m.invalidation_reason, Some(_)) == (m.state == SecretState::Invalid))
        && crate::types::ts_ok_exec(m.valid_from) && crate::types::ts_ok_exec(m.valid_until)
        && crate::types::ts_ok_exec(m.created_at) && (match m.last_used_at {
        Some(t) => crate::types::ts_ok_exec(t),
        None => true,
    })
}

/// Runtime check of `snapshot_ok`.
fn check_snapshot(secrets: &Vec<SecretMetadata>, active: Option<u64>) -> (r: bool)
    ensures
        r == snapshot_ok(meta_views(secrets@), active),
{
    let ghost mv = meta_views(secrets@);
    let mut ok = true;
    let mut i: usize = 0;
    while i < secrets.len()
        invariant
            i <= secrets@.len(),
            mv == meta_views(secrets@),
            mv.len() == secrets@.len(),
            forall|k: int| 0 <= k < secrets@.len() ==> #[trigger] mv[k] == secrets@[k]@,
            ok == ((forall|k: int| 0 < k < i ==> (#[trigger] mv[k - 1].version) < mv[k].version)
                && (forall|k: int| 0 <= k < i ==> meta_ok(#[trigger] mv[k])) && (forall|k: int|
                0 <= k < i ==> (((#[trigger] mv[k]).state == SecretState::Active) <==> active
                    == Some(mv[k].version)))),
        decreases secrets@.len() - i,
    {
        let m = &secrets[i];
        let step = meta_ok_exec(m) && ((m.state == SecretState::Active) == (match active {
            Some(v) => v == m.version,
            None => false,
        })) && (i == 0 || secrets[i - 1].version < m.version);
        proof {
            if active is Some {
                assert((active == Some(mv[i as int].version)) == (active->Some_0
                    == mv[i as int].version));
            }
            assert(step == (meta_ok(mv[i as int]) && ((mv[i as int].state
                == SecretState::Active) <==> active == Some(mv[i as int].version)) && (i == 0
                || mv[i - 1].version < mv[i as int].version)));
        }
        let ghost pre_ok = ok;
        ok = ok && step;
        proof {
            let j = i as int;
            if ok {
                assert(forall|k: int| 0 < k < j + 1 ==> (#[trigger] mv[k - 1].version)
                    < mv[k].version);
                assert(forall|k: int| 0 <= k < j + 1 ==> meta_ok(#[trigger] mv[k]));
                assert(forall|k: int|
                    0 <= k < j + 1 ==> (((#[trigger] mv[k]).state == SecretState::Active) <==>
                    active == Some(mv[k].version)));
            } else {
                if pre_ok {
                    assert(!step);
                } else {
                    if (forall|k: int| 0 < k < j ==> (#[trigger] mv[k - 1].version)
                        < mv[k].version) && (forall|k: int|
                        0 <= k < j ==> meta_ok(#[trigger] mv[k])) && (forall|k: int|
                        0 <= k < j ==> (((#[trigger] mv[k]).state == SecretState::Active) <==>
                        active == Some(mv[k].version))) {
                        assert(false);
                    }
                }
            }
        }
        i += 1;
    }
    let present = match active {
        Some(v) => {
            let mut found = false;
            let mut j: usize = 0;
            while j < secrets.len()
                invariant
                    j <= secrets@.len(),
                    mv == meta_views(secrets@),
                    mv.len() == secrets@.len(),
                    forall|k: int| 0 <= k < secrets@.len() ==> #[trigger] mv[k] == secrets@[k]@,
                    found == exists|k: int| 0 <= k < j && (#[trigger] mv[k]).version == v,
                decreases secrets@.len() - j,
            {
                if secrets[j].version == v {
                    found = true;
                    proof {
                        assert(mv[j as int].version == v);
                    }
                }
                j += 1;
            }
            found
        },
        None => true,
    };
    let r = ok && present;
    proof {
        if r {
            assert forall|a: int, b: int|
                0 <= a < b < mv.len() implies mv[a].version < mv[b].version by {
                lemma_sorted_pair(mv, a, b);
            }
            assert(snapshot_ok(mv, active));
        } else {
            if !ok {
                assert(!snapshot_ok(mv, active));
            } else {
                assert(active is Some);
                assert(!snapshot_ok(mv, active));
            }
        }
    }
    r
}

/// `sec` is a faithful readout of a stored GRACE record: its metadata is
/// the record of its version, in grace and inside its window at `now`, and
/// its key bytes are what that record's sealed blob opens to.
pub open spec fn grace_elem_ok(s: &SecretManager, sec: Secret, now: i64) -> bool {
    let m = sec.metadata@;
    &&& s.has_version(m.version)
    &&& 0 <= s.idx(m.version) < s.metas().len()
    &&& s.metas()[s.idx(m.version)] == m
    &&& m.state == SecretState::Grace
    &&& readable(m, now)
    &&& unsealed(s.seal_key(), s.blobs()[s.idx(m.version)]) == Some(sec.data@)
}

/// The record at index `i` is a GRACE record that a grace readout returns:
/// inside its window, with a sealed blob that opens.
pub open spec fn grace_collectable(s: &SecretManager, i: int, now: i64) -> bool {
    &&& 0 <= i < s.metas().len()
    &&& s.metas()[i].state == SecretState::Grace
    &&& readable(s.metas()[i], now)
    &&& s.blobs()[i].len() > 0
    &&& unsealed(s.seal_key(), s.blobs()[i]) is Some
}

/// The secret store.
pub struct SecretManager {
    tpm: TpmManager,
    secrets: Vec<SecretMetadata>,
    sealed: Vec<Vec<u8>>,
    active_version: Option<u64>,
}

impl SecretManager {
    /// The stored metadata records, in increasing version order.
    pub closed spec fn metas(&self) -> Seq<MetaView> {
        self.secrets@.map_values(|m: SecretMetadata| m@)
    }

    /// The sealed blob of each record, parallel to `metas`.
    pub closed spec fn blobs(&self) -> Seq<Seq<u8>> {
        self.sealed@.map_values(|b: Vec<u8>| b@)
    }

    /// The active-version pointer.
    pub closed spec fn active(&self) -> Option<u64> {
        self.active_version
    }

    /// The sealing key all blobs are bound to.
    pub closed spec fn seal_key(&self) -> Seq<u8> {
        self.tpm.key()
    }

    /// The sealing provider is usable.
    pub closed spec fn provider_ok(&self) -> bool {
        self.tpm.wf()
    }

    pub open spec fn has_version(&self, v: u64) -> bool {
        exists|i: int| 0 <= i < self.metas().len() && self.metas()[i].version == v
    }

    /// Index of the record for version `v` (meaningful under `has_version`).
    pub open spec fn idx(&self, v: u64) -> int {
        choose|i: int| 0 <= i < self.metas().len() && self.metas()[i].version == v
    }

    /// The store invariant.
    pub open spec fn wf(&self) -> bool {
        &&& self.provider_ok()
        &&& self.blobs().len() == self.metas().len()
        &&& (forall|i: int, j: int|
            0 <= i < j < self.metas().len() ==> self.metas()[i].version
                < self.metas()[j].version)
        &&& (forall|i: int| 0 <= i < self.metas().len() ==> meta_ok(#[trigger] self.metas()[i]))
        &&& (forall|i: int|
            0 <= i < self.metas().len() ==> (((#[trigger] self.metas()[i]).state
                == SecretState::Active) <==> self.active() == Some(self.metas()[i].version)))
        &&& (self.active() matches Some(v) ==> self.has_version(v))
    }

    /// At most one version is ACTIVE at any time: distinct records never
    /// both carry the ACTIVE state.
    pub proof fn lemma_at_most_one_active(&self)
        requires
            self.wf(),
        ensures
            forall|i: int, j: int|
                0 <= i < self.metas().len() && 0 <= j < self.metas().len() && (
                #[trigger] self.metas()[i]).state == SecretState::Active && (
                #[trigger] self.metas()[j]).state == SecretState::Active ==> i == j,
    {
        assert forall|i: int, j: int|
            0 <= i < self.metas().len() && 0 <= j < self.metas().len()
                && (#[trigger] self.metas()[i]).state == SecretState::Active
                && (#[trigger] self.metas()[j]).state == SecretState::Active implies i == j by {
            assert(self.active() == Some(self.metas()[i].version));
            assert(self.active() == Some(self.metas()[j].version));
            if i < j {
                assert(self.metas()[i].version < self.metas()[j].version);
            }
            if j < i {
                assert(self.metas()[j].version < self.metas()[i].version);
            }
        }
    }

    /// Every GRACE version has `grace_until` past `valid_until` and not
    /// before `valid_from`.
    pub proof fn lemma_grace_window(&self)
        requires
            self.wf(),
        ensures
            forall|i: int|
                0 <= i < self.metas().len() && (#[trigger] self.metas()[i]).state
                    == SecretState::Grace ==> (self.metas()[i].grace_until matches Some(g) && g
                    > self.metas()[i].valid_until && g >= self.metas()[i].valid_from),
    {
    }

    /// The record holding version `v` is the one `idx` names.
    proof fn lemma_idx_is(&self, v: u64, i: int)
        requires
            self.wf(),
            0 <= i < self.metas().len(),
            self.metas()[i].version == v,
        ensures
            self.has_version(v),
            self.idx(v) == i,
    {
        assert(self.has_version(v));
        let j = self.idx(v);
        if i < j {
            assert(self.metas()[i].version < self.metas()[j].version);
        }
        if j < i {
            assert(self.metas()[j].version < self.metas()[i].version);
        }
    }

    /// An empty store bound to the given sealing provider.
    pub fn new(tpm: TpmManager) -> (r: SecretManager)
        requires
            tpm.wf(),
        ensures
            r.wf(),
            r.metas().len() == 0,
            r.active() is None,
            r.seal_key() == tpm.key(),
    {
        let r = SecretManager { tpm, secrets: Vec::new(), sealed: Vec::new(), active_version: None };
        proof {
            assert(r.metas() =~= Seq::<MetaView>::empty());
            assert(r.blobs() =~= Seq::<Seq<u8>>::empty());
        }
        r
    }

    /// Index of the record for `version`, if present.
    fn find_index(&self, version: u64) -> (r: Option<usize>)
        ensures
            match r {
                Some(i) => 0 <= i < self.metas().len() && self.metas()[i as int].version
                    == version,
                None => !self.has_version(version),
            },
    {
        let mut i: usize = 0;
        while i < self.secrets.len()
            invariant
                i <= self.metas().len(),
                self.metas().len() == self.secrets@.len(),
                forall|k: int| 0 <= k < i ==> (#[trigger] self.metas()[k]).version != version,
            decreases self.secrets@.len() - i,
        {
            if self.secrets[i].version == version {
                return Some(i);
            }
            i += 1;
        }
        None
    }

    /// Field-for-field copy of one record.
    fn clone_meta(m: &SecretMetadata) -> (r: SecretMetadata)
        ensures
            r@ == m@,
    {
        SecretMetadata {
            version: m.version,
            state: m.state,
            valid_from: m.valid_from,
            valid_until: m.valid_until,
            grace_until: m.grace_until,
            created_at: m.created_at,
            last_used_at: m.last_used_at,
            rotation_source: m.rotation_source,
            invalidation_reason: match &m.invalidation_reason {
                Some(s) => Some(s.clone()),
                None => None,
            },
        }
    }

    /// Whether the store accepts this record for `version` at `now`:
    /// the record must describe `version` itself, arrive ACTIVE with a sane
    /// grace window, carry on-disk-representable timestamps, and be strictly
    /// newer than everything stored.
    pub open spec fn store_acceptable(&self, m: MetaView, version: u64, now: i64) -> bool {
        &&& m.version == version
        &&& m.state == SecretState::Active
        &&& m.grace_until is Some
        &&& meta_ok(MetaView { last_used_at: Some(now), ..m })
        &&& ts_ok(now)
        &&& (forall|i: int| 0 <= i < self.metas().len() ==> (#[trigger] self.metas()[i]).version < version)
    }

    /// Stores a new secret version: seals the key bytes, records the
    /// metadata with `last_used_at` set to `now`, demotes the previously
    /// active version to GRACE (it keeps its own recorded `grace_until`),
    /// and makes `version` active. Records that would break the store
    /// invariants - a reused or non-newest version, a non-ACTIVE state, a
    /// missing or inconsistent grace window - are rejected as internal
    /// errors; success is owed for every acceptable record whose key bytes
    /// fit under the AEAD length cap, and a sealing failure beyond it is
    /// reported as a TPM error. The key bytes of the argument are zeroed
    /// before it is released.
    pub fn store_secret(&mut self, secret: Secret, version: u64, now: i64) -> (r: AgentResult<()>)
        requires
            old(self).wf(),
        ensures
            final(self).wf(),
            final(self).seal_key() == old(self).seal_key(),
            !old(self).store_acceptable(secret.metadata@, version, now) ==> *final(self) == *old(
                self,
            ) && (r matches Err(e) && e is InternalError),
            old(self).store_acceptable(secret.metadata@, version, now) && secret.data@.len()
                <= crate::tpm::AEAD_P_MAX ==> r is Ok,
            r is Err ==> *final(self) == *old(self),
            old(self).store_acceptable(secret.metadata@, version, now) ==> match r {
                Ok(u) => {
                    &&& final(self).metas() == demote_active(
                        old(self).metas(),
                        old(self).active(),
                    ).push(MetaView { last_used_at: Some(now), ..secret.metadata@ })
                    &&& final(self).blobs().len() == old(self).blobs().len() + 1
                    &&& final(self).blobs().subrange(0, old(self).blobs().len() as int) == old(
                        self,
                    ).blobs()
                    &&& unsealed(final(self).seal_key(), final(self).blobs().last()) == Some(
                        secret.data@,
                    )
                    &&& final(self).active() == Some(version)
                },
                Err(e) => e is TpmError,
            },
    {
        let Secret { data, metadata } = secret;
        let mut data = data;
        // Validate before touching anything.
        let acceptable = metadata.version == version && matches!(
            metadata.state,
            SecretState::Active,
        ) && matches!(metadata.invalidation_reason, None) && crate::types::ts_ok_exec(now)
            && crate::types::ts_ok_exec(metadata.valid_from) && crate::types::ts_ok_exec(
            metadata.valid_until,
        ) && crate::types::ts_ok_exec(metadata.created_at) && match metadata.grace_until {
            Some(g) => g > metadata.valid_until && g >= metadata.valid_from
                && crate::types::ts_ok_exec(g),
            None => false,
        } && match self.newest_version() {
            Some(v) => version > v,
            None => true,
        };
        proof {
            assert(acceptable == old(self).store_acceptable(metadata@, version, now));
        }
        if !acceptable {
            crate::tpm::wipe(&mut data);
            return Err(AgentError::InternalError("secret version not storable".to_owned()));
        }
        // Seal the key bytes.
        let blob = match self.tpm.encrypt(data.as_slice()) {
            Ok(b) => b,
            Err(_) => {
                crate::tpm::wipe(&mut data);
                return Err(AgentError::TpmError("Failed to encrypt secret".to_owned()));
            },
        };
        crate::tpm::wipe(&mut data);
        let ghost blob_view = blob@;
        // Demote the previously active version; it keeps its own grace_until.
        let ghost pre = *self;
        self.demote_active_entry();
        // Record the new entry and point the store at it.
        let mut stored = metadata;
        stored.last_used_at = Some(now);
        self.secrets.push(stored);
        self.sealed.push(blob);
        self.active_version = Some(version);
        proof {
            let dm = demote_active(pre.metas(), pre.active());
            let newm = MetaView { last_used_at: Some(now), ..metadata@ };
            assert(self.metas() =~= dm.push(newm));
            assert(self.blobs() =~= pre.blobs().push(blob_view));
            assert(self.blobs().subrange(0, pre.blobs().len() as int) =~= pre.blobs());
            assert forall|k: int| 0 <= k < dm.len() implies meta_ok(#[trigger] dm[k]) && dm[k].version
                == pre.metas()[k].version && dm[k].state != SecretState::Active && dm[k].version
                < version by {
                assert(meta_ok(pre.metas()[k]));
                assert(pre.metas()[k].version < version);
                if pre.active() == Some(pre.metas()[k].version) {
                    assert(pre.metas()[k].state == SecretState::Active);
                    assert(dm[k] == demote(pre.metas()[k]));
                } else {
                    assert(dm[k] == pre.metas()[k]);
                    assert(pre.metas()[k].state != SecretState::Active);
                }
            }
            assert(meta_ok(newm));
            assert(self.metas()[self.metas().len() - 1].version == version);
            assert(self.has_version(version));
            assert forall|i: int|
                0 <= i < self.metas().len() implies (((#[trigger] self.metas()[i]).state
                == SecretState::Active) <==> self.active() == Some(self.metas()[i].version)) by {
                if i < dm.len() {
                    assert(self.metas()[i] == dm[i]);
                    assert(self.metas()[i].version != version);
                } else {
                    assert(self.metas()[i] == newm);
                }
            }
            assert(self.wf());
        }
        Ok(())
    }

    /// Largest stored version, regardless of state.
    fn newest_version(&self) -> (r: Option<u64>)
        ensures
            match r {
                Some(v) => self.metas().len() > 0 && (forall|i: int|
                    0 <= i < self.metas().len() ==> (#[trigger] self.metas()[i]).version <= v)
                    && exists|i: int|
                    0 <= i < self.metas().len() && (#[trigger] self.metas()[i]).version == v,
                None => self.metas().len() == 0,
            },
    {
        let mut r: Option<u64> = None;
        let mut i: usize = 0;
        while i < self.secrets.len()
            invariant
                i <= self.metas().len(),
                self.metas().len() == self.secrets@.len(),
                match r {
                    Some(v) => i > 0 && (forall|k: int|
                        0 <= k < i ==> (#[trigger] self.metas()[k]).version <= v) && exists|k: int|
                        0 <= k < i && (#[trigger] self.metas()[k]).version == v,
                    None => i == 0,
                },
            decreases self.secrets@.len() - i,
        {
            let v = self.secrets[i].version;
            proof {
                assert(self.metas()[i as int].version == v);
            }
            let updated = match r {
                Some(best) => if v > best {
                    v
                } else {
                    best
                },
                None => v,
            };
            proof {
                if updated == v {
                    assert(exists|k: int|
                        0 <= k < i + 1 && (#[trigger] self.metas()[k]).version == updated);
                } else {
                    let ghost w = choose|k: int|
                        0 <= k < i && (#[trigger] self.metas()[k]).version == updated;
                    assert(0 <= w < i + 1 && self.metas()[w].version == updated);
                }
            }
            r = Some(updated);
            i += 1;
        }
        r
    }

    /// Sets the state of the entry the active pointer names to GRACE.
    /// Used while installing a successor; the pointer itself is updated by
    /// the caller.
    fn demote_active_entry(&mut self)
        requires
            old(self).wf(),
        ensures
            final(self).metas() == demote_active(old(self).metas(), old(self).active()),
            final(self).blobs() == old(self).blobs(),
            final(self).active() == old(self).active(),
            final(self).seal_key() == old(self).seal_key(),
            final(self).tpm == old(self).tpm,
            final(self).secrets@.len() == old(self).secrets@.len(),
    {
        let ghost pre = *self;
        let mut i: usize = 0;
        while i < self.secrets.len()
            invariant
                pre.wf(),
                i <= self.secrets@.len(),
                self.secrets@.len() == pre.secrets@.len(),
                self.tpm == pre.tpm,
                self.sealed == pre.sealed,
                self.active_version == pre.active_version,
                forall|k: int|
                    i <= k < self.metas().len() ==> #[trigger] self.metas()[k] == pre.metas()[k],
                forall|k: int|
                    0 <= k < i ==> #[trigger] self.metas()[k] == (if pre.active() == Some(
                        pre.metas()[k].version,
                    ) {
                        demote(pre.metas()[k])
                    } else {
                        pre.metas()[k]
                    }),
            decreases self.secrets@.len() - i,
        {
            let ghost pre_loop = self.metas();
            let ghost pre_secrets = self.secrets@;
            let is_active = match self.active_version {
                Some(v) => self.secrets[i].version == v,
                None => false,
            };
            if is_active {
                let m = &self.secrets[i];
                let updated = SecretMetadata {
                    version: m.version,
                    state: SecretState::Grace,
                    valid_from: m.valid_from,
                    valid_until: m.valid_until,
                    grace_until: m.grace_until,
                    created_at: m.created_at,
                    last_used_at: m.last_used_at,
                    rotation_source: m.rotation_source,
                    invalidation_reason: None,
                };
                proof {
                    assert(self.metas()[i as int] == pre.metas()[i as int]);
                    assert(pre.metas()[i as int].version == pre.metas()[i as int].version);
                    assert(pre.active() == Some(pre.metas()[i as int].version));
                    assert(pre.metas()[i as int].state == SecretState::Active);
                    assert(pre.metas()[i as int].invalidation_reason is None);
                }
                self.secrets.set(i, updated);
                proof {
                    assert(self.metas() =~= pre_loop.update(i as int, updated@)) by {
                        assert(self.secrets@ == pre_secrets.update(i as int, updated));
                        assert(forall|k: int|
                            0 <= k < self.metas().len() ==> self.metas()[k]
                                == (#[trigger] self.secrets@[k])@);
                    }
                    assert(updated@ == demote(pre.metas()[i as int]));
                }
            } else {
                proof {
                    assert(self.metas()[i as int] == pre.metas()[i as int]);
                    assert(pre.active() != Some(pre.metas()[i as int].version));
                }
            }
            i += 1;
        }
        proof {
            assert(final(self).metas() =~= demote_active(pre.metas(), pre.active()));
        }
    }

    /// Reads one secret version at `now`: unknown versions are not found,
    /// INVALID ones are rejected, reads outside the validity window (and,
    /// for GRACE, past `grace_until`) are expired; otherwise the sealed key
    /// bytes are unsealed and returned with a copy of the metadata. A
    /// missing sealed blob reads as not found; an unsealable one as a TPM
    /// error.
    pub fn get_secret(&self, version: u64, now: i64) -> (r: AgentResult<Secret>)
        requires
            self.wf(),
        ensures
            !self.has_version(version) ==> (r matches Err(e) && e == AgentError::SecretNotFound(
                version,
            )),
            self.has_version(version) ==> {
                let m = self.metas()[self.idx(version)];
                &&& (m.state == SecretState::Invalid ==> (r matches Err(e) && e is SecretInvalid))
                &&& (m.state != SecretState::Invalid && !temporal_ok(m, now) ==> (r matches Err(e)
                    && e == AgentError::SecretExpired(version)))
                &&& (readable(m, now) ==> match r {
                    Ok(secret) => secret.metadata@ == m && unsealed(
                        self.seal_key(),
                        self.blobs()[self.idx(version)],
                    ) == Some(secret.data@),
                    Err(e) => (e == AgentError::SecretNotFound(version) && self.blobs()[self.idx(
                        version,
                    )].len() == 0) || (e is TpmError && unsealed(
                        self.seal_key(),
                        self.blobs()[self.idx(version)],
                    ) is None),
                })
            },
    {
        let i = match self.find_index(version) {
            Some(i) => i,
            None => {
                return Err(AgentError::SecretNotFound(version));
            },
        };
        proof {
            self.lemma_idx_is(version, i as int);
        }
        let m = &self.secrets[i];
        if m.state == SecretState::Invalid {
            return Err(AgentError::SecretInvalid("Secret is invalidated".to_owned()));
        }
        if now > m.valid_until {
            let expired = match m.grace_until {
                Some(g) => now > g,
                None => true,
            };
            if expired {
                return Err(AgentError::SecretExpired(version));
            }
        }
        let blob = &self.sealed[i];
        if blob.len() == 0 {
            return Err(AgentError::SecretNotFound(version));
        }
        match self.tpm.decrypt(blob.as_slice()) {
            Ok(data) => Ok(Secret { data, metadata: Self::clone_meta(m) }),
            Err(_) => Err(AgentError::TpmError("Failed to decrypt secret".to_owned())),
        }
    }

    /// Reads the active secret; with no active version the error is
    /// `SecretNotFound(0)`.
    pub fn get_active_secret(&self, now: i64) -> (r: AgentResult<Secret>)
        requires
            self.wf(),
        ensures
            self.active() is None ==> (r matches Err(e) && e == AgentError::SecretNotFound(0)),
            self.active() matches Some(v) ==> {
                let m = self.metas()[self.idx(v)];
                &&& (readable(m, now) ==> match r {
                    Ok(secret) => secret.metadata@ == m && unsealed(
                        self.seal_key(),
                        self.blobs()[self.idx(v)],
                    ) == Some(secret.data@),
                    Err(e) => (e == AgentError::SecretNotFound(v) && self.blobs()[self.idx(
                        v,
                    )].len() == 0) || (e is TpmError && unsealed(
                        self.seal_key(),
                        self.blobs()[self.idx(v)],
                    ) is None),
                })
                &&& (!temporal_ok(m, now) ==> (r matches Err(e) && e == AgentError::SecretExpired(
                    v,
                )))
            },
    {
        let version = match self.active_version {
            Some(v) => v,
            None => {
                return Err(AgentError::SecretNotFound(0));
            },
        };
        proof {
            let w = choose|i: int|
                0 <= i < self.metas().len() && self.metas()[i].version == version;
            self.lemma_idx_is(version, w);
            assert(self.metas()[self.idx(version)].state == SecretState::Active);
        }
        self.get_secret(version, now)
    }

    /// Reads every GRACE version that is inside its grace window and whose
    /// blob unseals. Each element is a faithful readout of its stored
    /// record, every collectable GRACE record is represented, and the
    /// elements come in strictly increasing version order - one per
    /// version.
    #[verifier::rlimit(60)]
    pub fn get_grace_secrets(&self, now: i64) -> (r: AgentResult<Vec<Secret>>)
        requires
            self.wf(),
        ensures
            r is Ok,
            r matches Ok(list) ==> (forall|k: int|
                0 <= k < list@.len() ==> grace_elem_ok(self, #[trigger] list@[k], now)),
            r matches Ok(list) ==> (forall|i: int| #![trigger grace_collectable(self, i, now)]
                grace_collectable(self, i, now) ==> exists|k: int|
                    0 <= k < list@.len() && (#[trigger] list@[k]).metadata@ == self.metas()[i]),
            r matches Ok(list) ==> (forall|a: int, b: int|
                0 <= a < b < list@.len() ==> (#[trigger] list@[a]).metadata@.version < (
                #[trigger] list@[b]).metadata@.version),
    {
        let mut out: Vec<Secret> = Vec::new();
        let ghost mut sources: Seq<int> = Seq::empty();
        let mut i: usize = 0;
        while i < self.secrets.len()
            invariant
                self.wf(),
                i <= self.metas().len(),
                self.metas().len() == self.secrets@.len(),
                forall|k: int|
                    0 <= k < out@.len() ==> grace_elem_ok(self, #[trigger] out@[k], now),
                forall|j: int| #![trigger grace_collectable(self, j, now)]
                    j < i && grace_collectable(self, j, now) ==> exists|k: int|
                        0 <= k < out@.len() && (#[trigger] out@[k]).metadata@ == self.metas()[j],
                sources.len() == out@.len(),
                forall|k: int|
                    0 <= k < out@.len() ==> 0 <= #[trigger] sources[k] < i && out@[k].metadata@
                        == self.metas()[sources[k]],
                forall|a: int, b: int| 0 <= a < b < sources.len() ==> sources[a] < sources[b],
            decreases self.secrets@.len() - i,
        {
            let ghost pre_out = out@;
            if self.secrets[i].state == SecretState::Grace {
                let version = self.secrets[i].version;
                proof {
                    self.lemma_idx_is(version, i as int);
                }
                match self.get_secret(version, now) {
                    Ok(secret) => {
                        proof {
                            assert(grace_elem_ok(self, secret, now));
                        }
                        out.push(secret);
                        proof {
                            sources = sources.push(i as int);
                            assert(out@[out@.len() - 1].metadata@ == self.metas()[i as int]);
                        }
                    },
                    Err(_) => {
                        proof {
                            assert(!grace_collectable(self, i as int, now));
                        }
                    },
                }
            } else {
                proof {
                    assert(!grace_collectable(self, i as int, now));
                }
            }
            proof {
                assert(forall|k: int|
                    0 <= k < pre_out.len() ==> out@[k] == #[trigger] pre_out[k]);
            }
            i += 1;
        }
        let ghost out_view = out@;
        let result: AgentResult<Vec<Secret>> = Ok(out);
        proof {
            assert(result->Ok_0@ == out_view);
            assert(i == self.metas().len());
            assert forall|j: int| #![trigger grace_collectable(self, j, now)]
                grace_collectable(self, j, now) implies exists|k: int|
                0 <= k < result->Ok_0@.len() && (#[trigger] result->Ok_0@[k]).metadata@
                == self.metas()[j] by {
                assert(j < i);
                let w = choose|k: int|
                    0 <= k < out_view.len() && (#[trigger] out_view[k]).metadata@
                        == self.metas()[j];
                assert(result->Ok_0@[w].metadata@ == self.metas()[j]);
            }
            assert forall|a: int, b: int|
                0 <= a < b < result->Ok_0@.len() implies (
            #[trigger] result->Ok_0@[a]).metadata@.version < (
            #[trigger] result->Ok_0@[b]).metadata@.version by {
                assert(sources[a] < sources[b]);
                assert(self.metas()[sources[a]].version < self.metas()[sources[b]].version);
                assert(result->Ok_0@[a] == out_view[a]);
                assert(result->Ok_0@[b] == out_view[b]);
            }
        }
        result
    }

    /// Moves a version to GRACE with the given deadline. Unknown versions
    /// are not found; INVALID is terminal and rejected; a deadline that is
    /// not past `valid_until`, before `valid_from`, or not representable on
    /// disk would break the store invariants and is rejected as an internal
    /// error. If the version was active, the store is left with no active
    /// version.
    pub fn set_grace(&mut self, version: u64, grace_until: i64) -> (r: AgentResult<()>)
        requires
            old(self).wf(),
        ensures
            final(self).wf(),
            final(self).seal_key() == old(self).seal_key(),
            final(self).blobs() == old(self).blobs(),
            !old(self).has_version(version) ==> (r matches Err(e) && e
                == AgentError::SecretNotFound(version)) && *final(self) == *old(self),
            r is Err ==> *final(self) == *old(self),
            old(self).has_version(version) ==> {
                let i = old(self).idx(version);
                let m = old(self).metas()[i];
                &&& (m.state == SecretState::Invalid ==> (r matches Err(e) && e is SecretInvalid))
                &&& (m.state != SecretState::Invalid && !(grace_until > m.valid_until
                    && grace_until >= m.valid_from && ts_ok(grace_until)) ==> (r matches Err(e)
                    && e is InternalError))
                &&& (m.state != SecretState::Invalid && grace_until > m.valid_until && grace_until
                    >= m.valid_from && ts_ok(grace_until) ==> r is Ok && final(self).metas()
                    == old(self).metas().update(
                    i,
                    MetaView {
                        state: SecretState::Grace,
                        grace_until: Some(grace_until),
                        ..m
                    },
                ) && final(self).active() == (if old(self).active() == Some(version) {
                    None
                } else {
                    old(self).active()
                }))
            },
    {
        let ghost pre = *self;
        let i = match self.find_index(version) {
            Some(i) => i,
            None => {
                return Err(AgentError::SecretNotFound(version));
            },
        };
        proof {
            self.lemma_idx_is(version, i as int);
        }
        let m = &self.secrets[i];
        if m.state == SecretState::Invalid {
            return Err(AgentError::SecretInvalid("Secret is invalidated".to_owned()));
        }
        if !(grace_until > m.valid_until && grace_until >= m.valid_from && crate::types::ts_ok_exec(
            grace_until,
        )) {
            return Err(AgentError::InternalError("grace deadline outside window".to_owned()));
        }
        let updated = SecretMetadata {
            version: m.version,
            state: SecretState::Grace,
            valid_from: m.valid_from,
            valid_until: m.valid_until,
            grace_until: Some(grace_until),
            created_at: m.created_at,
            last_used_at: m.last_used_at,
            rotation_source: m.rotation_source,
            invalidation_reason: None,
        };
        proof {
            assert(pre.metas()[i as int].invalidation_reason is None);
        }
        self.secrets.set(i, updated);
        let was_active = match self.active_version {
            Some(v) => v == version,
            None => false,
        };
        if was_active {
            self.active_version = None;
        }
        proof {
            assert(self.metas() =~= pre.metas().update(
                i as int,
                MetaView { state: SecretState::Grace, grace_until: Some(grace_until), ..pre.metas()[i as int] },
            ));
            assert(forall|k: int|
                0 <= k < self.metas().len() ==> (#[trigger] self.metas()[k]).version
                    == pre.metas()[k].version);
            assert forall|k: int| 0 <= k < self.metas().len() implies meta_ok(
                #[trigger] self.metas()[k],
            ) by {
                assert(meta_ok(pre.metas()[k]));
                if k != i {
                    assert(self.metas()[k] == pre.metas()[k]);
                }
            }
            assert forall|k: int|
                0 <= k < self.metas().len() implies (((#[trigger] self.metas()[k]).state
                == SecretState::Active) <==> self.active() == Some(self.metas()[k].version)) by {
                if k != i {
                    assert(self.metas()[k] == pre.metas()[k]);
                    if was_active && pre.metas()[k].state == SecretState::Active {
                        assert(pre.active() == Some(pre.metas()[k].version));
                        assert(pre.metas()[k].version == version);
                        pre.lemma_idx_is(version, k);
                        pre.lemma_idx_is(version, i as int);
                    }
                }
            }
            match self.active() {
                Some(v) => {
                    let w = choose|k: int|
                        0 <= k < pre.metas().len() && pre.metas()[k].version == v;
                    assert(self.metas()[w].version == v);
                },
                None => {},
            }
            assert(self.wf());
        }
        Ok(())
    }

    /// Largest ACTIVE version, if any.
    fn find_new_active_version(&self) -> (r: Option<u64>)
        ensures
            match r {
                Some(v) => exists|i: int|
                    0 <= i < self.metas().len() && (#[trigger] self.metas()[i]).version == v && self.metas()[i].state == SecretState::Active,
                None => forall|i: int|
                    0 <= i < self.metas().len() ==> (#[trigger] self.metas()[i]).state
                        != SecretState::Active,
            },
    {
        let mut r: Option<u64> = None;
        let mut i: usize = 0;
        while i < self.secrets.len()
            invariant
                i <= self.metas().len(),
                self.metas().len() == self.secrets@.len(),
                match r {
                    Some(v) => exists|k: int|
                        0 <= k < i && (#[trigger] self.metas()[k]).version == v && self.metas()[k].state == SecretState::Active,
                    None => forall|k: int|
                        0 <= k < i ==> (#[trigger] self.metas()[k]).state != SecretState::Active,
                },
            decreases self.secrets@.len() - i,
        {
            if self.secrets[i].state == SecretState::Active {
                let v = self.secrets[i].version;
                let keep = match r {
                    Some(best) => v > best,
                    None => true,
                };
                if keep {
                    r = Some(v);
                    proof {
                        assert(self.metas()[i as int].version == v && self.metas()[i as int].state == SecretState::Active);
                    }
                }
            }
            i += 1;
        }
        r
    }

    /// Invalidates a version: its state becomes INVALID (terminal) and the
    /// given reason is recorded (an absent reason is recorded as an empty
    /// one). If the invalidated version was active, the largest remaining
    /// ACTIVE version becomes active - with at most one ACTIVE at a time
    /// that leaves no active version.
    pub fn invalidate(&mut self, version: u64, reason: Option<String>) -> (r: AgentResult<()>)
        requires
            old(self).wf(),
        ensures
            final(self).wf(),
            final(self).seal_key() == old(self).seal_key(),
            final(self).blobs() == old(self).blobs(),
            !old(self).has_version(version) ==> (r matches Err(e) && e
                == AgentError::SecretNotFound(version)) && *final(self) == *old(self),
            old(self).has_version(version) ==> r is Ok && {
                let i = old(self).idx(version);
                &&& final(self).metas() == old(self).metas().update(
                    i,
                    MetaView {
                        state: SecretState::Invalid,
                        invalidation_reason: Some(
                            match reason {
                                Some(s) => s@,
                                None => Seq::<char>::empty(),
                            },
                        ),
                        ..old(self).metas()[i]
                    },
                )
                &&& final(self).active() == (if old(self).active() == Some(version) {
                    None
                } else {
                    old(self).active()
                })
            },
    {
        let ghost pre = *self;
        let i = match self.find_index(version) {
            Some(i) => i,
            None => {
                return Err(AgentError::SecretNotFound(version));
            },
        };
        proof {
            self.lemma_idx_is(version, i as int);
        }
        let m = &self.secrets[i];
        let reason_str = match reason {
            Some(s) => s,
            None => String::new(),
        };
        let updated = SecretMetadata {
            version: m.version,
            state: SecretState::Invalid,
            valid_from: m.valid_from,
            valid_until: m.valid_until,
            grace_until: m.grace_until,
            created_at: m.created_at,
            last_used_at: m.last_used_at,
            rotation_source: m.rotation_source,
            invalidation_reason: Some(reason_str),
        };
        self.secrets.set(i, updated);
        let was_active = match self.active_version {
            Some(v) => v == version,
            None => false,
        };
        if was_active {
            let next = self.find_new_active_version();
            proof {
                if next is Some {
                    let w = choose|k: int|
                        0 <= k < self.metas().len() && (#[trigger] self.metas()[k]).version
                            == next.unwrap() && self.metas()[k].state == SecretState::Active;
                    assert(w != i);
                    assert(self.metas()[w] == pre.metas()[w]);
                    assert(pre.active() == Some(pre.metas()[w].version));
                    assert(pre.metas()[w].version == version);
                    self.lemma_idx_is(version, i as int);
                    assert(false);
                }
            }
            self.active_version = None;
        }
        proof {
            assert(self.metas() =~= pre.metas().update(
                i as int,
                MetaView {
                    state: SecretState::Invalid,
                    invalidation_reason: Some(
                        match reason {
                            Some(s) => s@,
                            None => Seq::<char>::empty(),
                        },
                    ),
                    ..pre.metas()[i as int]
                },
            ));
            assert(forall|k: int|
                0 <= k < self.metas().len() ==> (#[trigger] self.metas()[k]).version
                    == pre.metas()[k].version);
            assert forall|k: int| 0 <= k < self.metas().len() implies meta_ok(
                #[trigger] self.metas()[k],
            ) by {
                assert(meta_ok(pre.metas()[k]));
                if k != i {
                    assert(self.metas()[k] == pre.metas()[k]);
                }
            }
            assert forall|k: int|
                0 <= k < self.metas().len() implies (((#[trigger] self.metas()[k]).state
                == SecretState::Active) <==> self.active() == Some(self.metas()[k].version)) by {
                if k != i {
                    assert(self.metas()[k] == pre.metas()[k]);
                    if was_active && pre.metas()[k].state == SecretState::Active {
                        assert(pre.active() == Some(pre.metas()[k].version));
                        assert(pre.metas()[k].version == version);
                        pre.lemma_idx_is(version, k);
                        pre.lemma_idx_is(version, i as int);
                    }
                }
            }
            match self.active() {
                Some(v) => {
                    let w = choose|k: int|
                        0 <= k < pre.metas().len() && pre.metas()[k].version == v;
                    assert(self.metas()[w].version == v);
                },
                None => {},
            }
            assert(self.wf());
        }
        Ok(())
    }

    /// Retires every GRACE version whose grace deadline lies before `now`:
    /// each becomes INVALID with the reason "Grace period expired". Returns
    /// how many versions were retired. Running it twice at the same instant
    /// changes nothing the second time (`lemma_cleanup_idempotent`).
    pub fn cleanup_expired(&mut self, now: i64) -> (r: AgentResult<usize>)
        requires
            old(self).wf(),
        ensures
            final(self).wf(),
            final(self).seal_key() == old(self).seal_key(),
            final(self).blobs() == old(self).blobs(),
            final(self).active() == old(self).active(),
            final(self).metas() == spec_cleanup(old(self).metas(), now),
            r matches Ok(n) && n == count_expired(old(self).metas(), now),
    {
        let ghost pre = *self;
        let mut cleaned: usize = 0;
        let mut i: usize = 0;
        while i < self.secrets.len()
            invariant
                pre.wf(),
                i <= self.secrets@.len(),
                self.secrets@.len() == pre.secrets@.len(),
                self.tpm == pre.tpm,
                self.sealed == pre.sealed,
                self.active_version == pre.active_version,
                cleaned <= i,
                cleaned == count_expired(pre.metas().subrange(0, i as int), now),
                forall|k: int|
                    i <= k < self.metas().len() ==> #[trigger] self.metas()[k] == pre.metas()[k],
                forall|k: int|
                    0 <= k < i ==> #[trigger] self.metas()[k] == cleanup_meta(pre.metas()[k], now),
            decreases self.secrets@.len() - i,
        {
            let ghost pre_secrets = self.secrets@;
            let ghost pre_metas = self.metas();
            proof {
                assert(pre.metas().subrange(0, i + 1).drop_last() =~= pre.metas().subrange(
                    0,
                    i as int,
                ));
                assert(pre.metas().subrange(0, i + 1).last() == pre.metas()[i as int]);
            }
            let expired = self.secrets[i].state == SecretState::Grace && match self.secrets[i].grace_until {
                Some(g) => now > g,
                None => false,
            };
            if expired {
                let m = &self.secrets[i];
                let updated = SecretMetadata {
                    version: m.version,
                    state: SecretState::Invalid,
                    valid_from: m.valid_from,
                    valid_until: m.valid_until,
                    grace_until: m.grace_until,
                    created_at: m.created_at,
                    last_used_at: m.last_used_at,
                    rotation_source: m.rotation_source,
                    invalidation_reason: Some("Grace period expired".to_owned()),
                };
                self.secrets.set(i, updated);
                proof {
                    assert(self.secrets@ == pre_secrets.update(i as int, updated));
                    assert(forall|k: int|
                        0 <= k < self.metas().len() ==> self.metas()[k] == (
                        #[trigger] self.secrets@[k])@);
                    assert(forall|k: int|
                        0 <= k < self.metas().len() && k != i ==> #[trigger] self.metas()[k]
                            == pre_metas[k]);
                    assert(self.metas()[i as int] == cleanup_meta(pre.metas()[i as int], now));
                }
                cleaned = cleaned + 1;
            } else {
                proof {
                    assert(self.metas()[i as int] == cleanup_meta(pre.metas()[i as int], now));
                }
            }
            i += 1;
        }
        proof {
            assert(pre.metas().subrange(0, pre.metas().len() as int) =~= pre.metas());
            assert(self.metas() =~= spec_cleanup(pre.metas(), now));
            assert forall|k: int|
                0 <= k < self.metas().len() implies (((#[trigger] self.metas()[k]).state
                == SecretState::Active) <==> self.active() == Some(self.metas()[k].version)) by {
                assert(self.metas()[k] == cleanup_meta(pre.metas()[k], now));
            }
            match self.active() {
                Some(v) => {
                    let w = choose|k: int|
                        0 <= k < pre.metas().len() && pre.metas()[k].version == v;
                    assert(self.metas()[w].version == v);
                },
                None => {},
            }
            assert(self.wf());
        }
        Ok(cleaned)
    }

    /// Metadata of one version, without the key bytes.
    pub fn get_metadata(&self, version: u64) -> (r: Option<&SecretMetadata>)
        requires
            self.wf(),
        ensures
            match r {
                Some(m) => self.has_version(version) && m@ == self.metas()[self.idx(version)],
                None => !self.has_version(version),
            },
    {
        match self.find_index(version) {
            Some(i) => {
                proof {
                    self.lemma_idx_is(version, i as int);
                }
                Some(&self.secrets[i])
            },
            None => None,
        }
    }

    /// The active version, if any.
    pub fn active_version(&self) -> (r: Option<u64>)
        ensures
            r == self.active(),
    {
        self.active_version
    }

    /// All stored versions, in increasing order.
    pub fn list_versions(&self) -> (r: Vec<u64>)
        ensures
            r@.len() == self.metas().len(),
            forall|i: int| 0 <= i < r@.len() ==> r@[i] == (#[trigger] self.metas()[i]).version,
    {
        let mut out: Vec<u64> = Vec::new();
        let mut i: usize = 0;
        while i < self.secrets.len()
            invariant
                i <= self.metas().len(),
                self.metas().len() == self.secrets@.len(),
                out@.len() == i,
                forall|k: int| 0 <= k < i ==> out@[k] == (#[trigger] self.metas()[k]).version,
            decreases self.secrets@.len() - i,
        {
            out.push(self.secrets[i].version);
            i += 1;
        }
        out
    }

    /// Renders the on-disk snapshot of the current records and active
    /// pointer, stamped with `now`. The snapshot is JSON bytes that
    /// `load_state` provably reads back to the same records and pointer;
    /// writing them to the state file atomically (temp file, then rename)
    /// is the caller's part.
    pub fn save_state(&self, now: i64) -> (r: AgentResult<Vec<u8>>)
        requires
            self.wf(),
        ensures
            !ts_ok(now) ==> (r matches Err(e) && e is InternalError),
            ts_ok(now) ==> (r matches Ok(bytes) && {
                &&& bytes@ == crate::json::spec_render(state_doc(self.metas(), self.active(), now))
                &&& crate::json::spec_parse(bytes@) == Some(
                    state_doc(self.metas(), self.active(), now),
                )
                &&& state_of_doc(state_doc(self.metas(), self.active(), now)) == Some(
                    (self.metas(), self.active()),
                )
            }),
    {
        if !crate::types::ts_ok_exec(now) {
            return Err(AgentError::InternalError("timestamp not representable".to_owned()));
        }
        proof {
            assert(meta_views(self.secrets@) =~= self.metas());
            assert forall|i: int| 0 <= i < self.secrets@.len() implies crate::types::meta_ok(
                (#[trigger] self.secrets@[i])@,
            ) by {
                assert(self.metas()[i] == self.secrets@[i]@);
            }
        }
        Ok(render_state(&self.secrets, self.active_version, now))
    }

    /// Replaces the in-memory records and active pointer with a parsed
    /// snapshot, after validating the store invariants over it. Every
    /// record starts with an empty sealed blob; `attach_sealed` re-attaches
    /// the blobs from the sealed-storage backend. A snapshot that does not
    /// parse, or whose records would break the invariants, is rejected
    /// without any change.
    pub fn load_state(&mut self, data: &[u8]) -> (r: AgentResult<()>)
        requires
            old(self).wf(),
        ensures
            final(self).wf(),
            final(self).seal_key() == old(self).seal_key(),
            r is Err ==> *final(self) == *old(self),
            r is Err ==> (r matches Err(e) && e is InternalError),
            crate::json::spec_parse(data@) is None ==> r is Err,
            crate::json::spec_parse(data@) matches Some(doc) ==> match state_of_doc(doc) {
                Some(p) => {
                    if snapshot_ok(p.0, p.1) {
                        &&& r is Ok
                        &&& final(self).metas() == p.0
                        &&& final(self).active() == p.1
                        &&& final(self).blobs().len() == p.0.len()
                        &&& forall|i: int|
                            0 <= i < final(self).blobs().len()
                                ==> (#[trigger] final(self).blobs()[i]).len() == 0
                    } else {
                        r is Err
                    }
                },
                None => r is Err,
            },
    {
        let (metas, active) = match parse_state(data) {
            Ok(p) => p,
            Err(_) => {
                return Err(AgentError::InternalError("Failed to parse state".to_owned()));
            },
        };
        if !check_snapshot(&metas, active) {
            return Err(AgentError::InternalError("state snapshot breaks invariants".to_owned()));
        }
        let mut sealed: Vec<Vec<u8>> = Vec::new();
        let mut i: usize = 0;
        while i < metas.len()
            invariant
                i <= metas@.len(),
                sealed@.len() == i,
                forall|k: int| 0 <= k < i ==> (#[trigger] sealed@[k])@.len() == 0,
            decreases metas@.len() - i,
        {
            sealed.push(Vec::new());
            i += 1;
        }
        self.secrets = metas;
        self.sealed = sealed;
        self.active_version = active;
        proof {
            assert(self.metas() =~= meta_views(self.secrets@));
            assert(self.blobs().len() == self.metas().len());
            assert(forall|k: int|
                0 <= k < self.blobs().len() ==> (#[trigger] self.blobs()[k]).len() == 0);
            assert(self.wf());
        }
        Ok(())
    }

    /// The sealed blob of a stored version, for the caller to persist in
    /// the sealed-storage backend.
    pub fn sealed_blob(&self, version: u64) -> (r: Option<Vec<u8>>)
        requires
            self.wf(),
        ensures
            match r {
                Some(b) => self.has_version(version) && b@ == self.blobs()[self.idx(version)],
                None => !self.has_version(version),
            },
    {
        match self.find_index(version) {
            Some(i) => {
                proof {
                    self.lemma_idx_is(version, i as int);
                }
                Some(crate::persist::str_bytes_copy(&self.sealed[i]))
            },
            None => None,
        }
    }

    /// Re-attaches a sealed blob to a stored version, after the metadata was
    /// loaded from the on-disk snapshot and the blob from the sealed-storage
    /// backend.
    pub fn attach_sealed(&mut self, version: u64, blob: Vec<u8>) -> (r: bool)
        requires
            old(self).wf(),
        ensures
            final(self).wf(),
            final(self).metas() == old(self).metas(),
            final(self).active() == old(self).active(),
            final(self).seal_key() == old(self).seal_key(),
            r == old(self).has_version(version),
            r ==> final(self).blobs() == old(self).blobs().update(
                old(self).idx(version),
                blob@,
            ),
            !r ==> final(self).blobs() == old(self).blobs(),
    {
        let ghost pre = *self;
        match self.find_index(version) {
            Some(i) => {
                proof {
                    self.lemma_idx_is(version, i as int);
                }
                self.sealed.set(i, blob);
                proof {
                    assert(self.metas() =~= pre.metas());
                    assert(self.blobs() =~= pre.blobs().update(pre.idx(version), blob@));
                }
                true
            },
            None => false,
        }
    }
}

} // verus!
