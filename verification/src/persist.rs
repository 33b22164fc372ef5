//! The on-disk snapshot: rendering store state to JSON bytes and reading it
//! back.
//!
//! The file is one JSON object
//! `{"secrets":{"<version>":{...},...},"active_version":n,"last_updated":"..."}`
//! with metadata fields in a fixed order and timestamps as RFC 3339 UTC
//! strings. `render_state` promises that `state_of_doc` inverts the
//! document it produced, so a snapshot written by `save_state` always loads
//! back to the same records and active pointer.

use vstd::prelude::*;
use vstd::utf8::{decode_utf8, encode_utf8, valid_utf8};
use vstd::string::StringSliceAdditionalSpecFns;
use crate::crypto::constant_time_compare;
use crate::json::{dec_of, push_dec, spec_render, Json, JsonNum, JsonV};
use crate::types::{ts_ok, AgentError, MetaView, RotationSource, SecretMetadata, SecretState};

verus! {

/// What chrono renders for a Unix timestamp as an RFC 3339 UTC string
/// (seconds precision, `Z` suffix), as bytes. A function of the timestamp
/// alone.
pub uninterp spec fn rfc3339_of(t: i64) -> Seq<u8>;

/// What chrono's RFC 3339 parser makes of the given bytes: the Unix
/// timestamp, or nothing when they are not a date-time. A function of the
/// bytes alone.
pub uninterp spec fn rfc3339_val(s: Seq<u8>) -> Option<i64>;

/// Relies on chrono: `DateTime::<Utc>::from_timestamp` followed by
/// `to_rfc3339_opts(SecondsFormat::Secs, true)`. Formats the timestamp as
/// an RFC 3339 UTC string; `parse_from_rfc3339` maps that string back to
/// the same timestamp.
#[verifier::external_body]
pub fn format_rfc3339(t: i64) -> (r: Vec<u8>)
    requires
        ts_ok(t),
    ensures
        r@ == rfc3339_of(t),
        rfc3339_val(r@) == Some(t),
{
    let dt = match chrono::DateTime::<chrono::Utc>::from_timestamp(t, 0) {
        Some(dt) => dt,
        None => chrono::DateTime::<chrono::Utc>::UNIX_EPOCH,
    };
    dt.to_rfc3339_opts(chrono::SecondsFormat::Secs, true).into_bytes()
}

/// Relies on chrono::DateTime::parse_from_rfc3339: recognizes RFC 3339
/// date-times and returns their Unix timestamp.
#[verifier::external_body]
pub fn parse_rfc3339(s: &[u8]) -> (r: Option<i64>)
    ensures
        r == rfc3339_val(s@),
{
    match core::str::from_utf8(s) {
        Ok(text) => match chrono::DateTime::parse_from_rfc3339(text) {
            Ok(dt) => Some(dt.timestamp()),
            Err(_) => None,
        },
        Err(_) => None,
    }
}

/// Relies on String::from_utf8: succeeds exactly on valid UTF-8, returning
/// the characters the bytes encode.
#[verifier::external_body]
pub fn string_from_utf8(v: Vec<u8>) -> (r: Option<String>)
    ensures
        match r {
            Some(s) => valid_utf8(v@) && s@ == decode_utf8(v@),
            None => !valid_utf8(v@),
        },
{
    match String::from_utf8(v) {
        Ok(s) => Some(s),
        Err(_) => None,
    }
}

/// The UTF-8 bytes of a string, copied out.
pub fn str_to_bytes(s: &str) -> (r: Vec<u8>)
    ensures
        r@ == s.spec_bytes(),
{
    let b = s.as_bytes();
    let mut out: Vec<u8> = Vec::new();
    let mut i: usize = 0;
    while i < b.len()
        invariant
            i <= b@.len(),
            out@ == b@.subrange(0, i as int),
        decreases b@.len() - i,
    {
        out.push(b[i]);
        proof {
            assert(out@ =~= b@.subrange(0, i + 1));
        }
        i += 1;
    }
    proof {
        assert(b@.subrange(0, b@.len() as int) =~= b@);
    }
    out
}

/// Field and label byte strings of the snapshot format.
pub open spec fn l_version() -> Seq<u8> {
    seq![118u8, 101u8, 114u8, 115u8, 105u8, 111u8, 110u8]
}

pub open spec fn l_state() -> Seq<u8> {
    seq![115u8, 116u8, 97u8, 116u8, 101u8]
}

pub open spec fn l_valid_from() -> Seq<u8> {
    seq![118u8, 97u8, 108u8, 105u8, 100u8, 95u8, 102u8, 114u8, 111u8, 109u8]
}

pub open spec fn l_valid_until() -> Seq<u8> {
    seq![118u8, 97u8, 108u8, 105u8, 100u8, 95u8, 117u8, 110u8, 116u8, 105u8, 108u8]
}

pub open spec fn l_grace_until() -> Seq<u8> {
    seq![103u8, 114u8, 97u8, 99u8, 101u8, 95u8, 117u8, 110u8, 116u8, 105u8, 108u8]
}

pub open spec fn l_created_at() -> Seq<u8> {
    seq![99u8, 114u8, 101u8, 97u8, 116u8, 101u8, 100u8, 95u8, 97u8, 116u8]
}

pub open spec fn l_last_used_at() -> Seq<u8> {
    seq![108u8, 97u8, 115u8, 116u8, 95u8, 117u8, 115u8, 101u8, 100u8, 95u8, 97u8, 116u8]
}

pub open spec fn l_rotation_source() -> Seq<u8> {
    seq![114u8, 111u8, 116u8, 97u8, 116u8, 105u8, 111u8, 110u8, 95u8, 115u8, 111u8, 117u8,
        114u8, 99u8, 101u8]
}

pub open spec fn l_invalidation_reason() -> Seq<u8> {
    seq![105u8, 110u8, 118u8, 97u8, 108u8, 105u8, 100u8, 97u8, 116u8, 105u8, 111u8, 110u8,
        95u8, 114u8, 101u8, 97u8, 115u8, 111u8, 110u8]
}

pub open spec fn l_secrets() -> Seq<u8> {
    seq![115u8, 101u8, 99u8, 114u8, 101u8, 116u8, 115u8]
}

pub open spec fn l_active_version() -> Seq<u8> {
    seq![97u8, 99u8, 116u8, 105u8, 118u8, 101u8, 95u8, 118u8, 101u8, 114u8, 115u8, 105u8,
        111u8, 110u8]
}

pub open spec fn l_last_updated() -> Seq<u8> {
    seq![108u8, 97u8, 115u8, 116u8, 95u8, 117u8, 112u8, 100u8, 97u8, 116u8, 101u8, 100u8]
}

/// UPPERCASE state names as stored on disk.
pub open spec fn state_label(s: SecretState) -> Seq<u8> {
    match s {
        SecretState::Absent => seq![65u8, 66u8, 83u8, 69u8, 78u8, 84u8],
        SecretState::Active => seq![65u8, 67u8, 84u8, 73u8, 86u8, 69u8],
        SecretState::Grace => seq![71u8, 82u8, 65u8, 67u8, 69u8],
        SecretState::Invalid => seq![73u8, 78u8, 86u8, 65u8, 76u8, 73u8, 68u8],
    }
}

/// UPPERCASE rotation-source names as stored on disk.
pub open spec fn source_label(s: RotationSource) -> Seq<u8> {
    match s {
        RotationSource::Automatic => seq![65u8, 85u8, 84u8, 79u8, 77u8, 65u8, 84u8, 73u8,
            67u8],
        RotationSource::Manual => seq![77u8, 65u8, 78u8, 85u8, 65u8, 76u8],
        RotationSource::Recovery => seq![82u8, 69u8, 67u8, 79u8, 86u8, 69u8, 82u8, 89u8],
    }
}

/// An optional timestamp as a document node: `null` or an RFC 3339 string.
pub open spec fn opt_ts_doc(t: Option<i64>) -> JsonV {
    match t {
        Some(t0) => JsonV::Str(rfc3339_of(t0)),
        None => JsonV::Null,
    }
}

/// An optional text as a document node: `null` or its UTF-8 bytes.
pub open spec fn opt_text_doc(s: Option<Seq<char>>) -> JsonV {
    match s {
        Some(s0) => JsonV::Str(encode_utf8(s0)),
        None => JsonV::Null,
    }
}

/// The document of one metadata record, fields in fixed order.
pub open spec fn meta_doc(m: MetaView) -> JsonV {
    JsonV::Obj(
        seq![
            (l_version(), JsonV::Num(JsonNum { neg: false, mag: m.version })),
            (l_state(), JsonV::Str(state_label(m.state))),
            (l_valid_from(), JsonV::Str(rfc3339_of(m.valid_from))),
            (l_valid_until(), JsonV::Str(rfc3339_of(m.valid_until))),
            (l_grace_until(), opt_ts_doc(m.grace_until)),
            (l_created_at(), JsonV::Str(rfc3339_of(m.created_at))),
            (l_last_used_at(), opt_ts_doc(m.last_used_at)),
            (l_rotation_source(), JsonV::Str(source_label(m.rotation_source))),
            (l_invalidation_reason(), opt_text_doc(m.invalidation_reason)),
        ],
    )
}

/// The members of the `secrets` object for `metas[i..]`, keyed by the
/// decimal version.
pub open spec fn secrets_doc(metas: Seq<MetaView>, i: int) -> Seq<(Seq<u8>, JsonV)>
    decreases metas.len() - i,
{
    if i < 0 || i >= metas.len() {
        Seq::empty()
    } else {
        seq![(dec_of(metas[i].version as nat), meta_doc(metas[i]))] + secrets_doc(metas, i + 1)
    }
}

/// The whole snapshot document.
pub open spec fn state_doc(metas: Seq<MetaView>, active: Option<u64>, t: i64) -> JsonV {
    JsonV::Obj(
        seq![
            (l_secrets(), JsonV::Obj(secrets_doc(metas, 0))),
            (
                l_active_version(),
                match active {
                    Some(v) => JsonV::Num(JsonNum { neg: false, mag: v }),
                    None => JsonV::Null,
                },
            ),
            (l_last_updated(), JsonV::Str(rfc3339_of(t))),
        ],
    )
}

/// Reads a state name back.
pub open spec fn state_of_label(b: Seq<u8>) -> Option<SecretState> {
    if b == state_label(SecretState::Absent) {
        Some(SecretState::Absent)
    } else if b == state_label(SecretState::Active) {
        Some(SecretState::Active)
    } else if b == state_label(SecretState::Grace) {
        Some(SecretState::Grace)
    } else if b == state_label(SecretState::Invalid) {
        Some(SecretState::Invalid)
    } else {
        None
    }
}

/// Reads a rotation-source name back.
pub open spec fn source_of_label(b: Seq<u8>) -> Option<RotationSource> {
    if b == source_label(RotationSource::Automatic) {
        Some(RotationSource::Automatic)
    } else if b == source_label(RotationSource::Manual) {
        Some(RotationSource::Manual)
    } else if b == source_label(RotationSource::Recovery) {
        Some(RotationSource::Recovery)
    } else {
        None
    }
}

/// Reads a timestamp node back.
pub open spec fn ts_of_doc(v: JsonV) -> Option<i64> {
    match v {
        JsonV::Str(b) => rfc3339_val(b),
        _ => None,
    }
}

/// Reads an optional timestamp node back.
pub open spec fn opt_ts_of_doc(v: JsonV) -> Option<Option<i64>> {
    match v {
        JsonV::Null => Some(None),
        JsonV::Str(b) => match rfc3339_val(b) {
            Some(t) => Some(Some(t)),
            None => None,
        },
        _ => None,
    }
}

/// Reads an optional text node back.
pub open spec fn opt_text_of_doc(v: JsonV) -> Option<Option<Seq<char>>> {
    match v {
        JsonV::Null => Some(None),
        JsonV::Str(b) => if valid_utf8(b) {
            Some(Some(decode_utf8(b)))
        } else {
            None
        },
        _ => None,
    }
}

/// Reads one metadata record back from its document. The reader is strict:
/// it expects exactly the fields `meta_doc` writes, in that order.
pub open spec fn meta_of_doc(v: JsonV) -> Option<MetaView> {
    match v {
        JsonV::Obj(fields) => {
            if fields.len() == 9 && fields[0].0 == l_version() && fields[1].0 == l_state()
                && fields[2].0 == l_valid_from() && fields[3].0 == l_valid_until() && fields[4].0
                == l_grace_until() && fields[5].0 == l_created_at() && fields[6].0
                == l_last_used_at() && fields[7].0 == l_rotation_source() && fields[8].0
                == l_invalidation_reason() {
                match (fields[0].1, fields[1].1) {
                    (JsonV::Num(n), JsonV::Str(sb)) => {
                        if n.neg {
                            None
                        } else {
                            match (
                                state_of_label(sb),
                                ts_of_doc(fields[2].1),
                                ts_of_doc(fields[3].1),
                                opt_ts_of_doc(fields[4].1),
                                ts_of_doc(fields[5].1),
                                opt_ts_of_doc(fields[6].1),
                            ) {
                                (
                                    Some(state),
                                    Some(valid_from),
                                    Some(valid_until),
                                    Some(grace_until),
                                    Some(created_at),
                                    Some(last_used_at),
                                ) => {
                                    match (fields[7].1, opt_text_of_doc(fields[8].1)) {
                                        (JsonV::Str(rb), Some(reason)) => {
                                            match source_of_label(rb) {
                                                Some(source) => Some(
                                                    MetaView {
                                                        version: n.mag,
                                                        state,
                                                        valid_from,
                                                        valid_until,
                                                        grace_until,
                                                        created_at,
                                                        last_used_at,
                                                        rotation_source: source,
                                                        invalidation_reason: reason,
                                                    },
                                                ),
                                                None => None,
                                            }
                                        },
                                        _ => None,
                                    }
                                },
                                _ => None,
                            }
                        }
                    },
                    _ => None,
                }
            } else {
                None
            }
        },
        _ => None,
    }
}

/// Reads the members of the `secrets` object back, ignoring the decorative
/// decimal keys.
pub open spec fn metas_of_doc(fields: Seq<(Seq<u8>, JsonV)>, i: int) -> Option<Seq<MetaView>>
    decreases fields.len() - i,
{
    if i < 0 || i > fields.len() {
        None
    } else if i == fields.len() {
        Some(Seq::empty())
    } else {
        match meta_of_doc(fields[i].1) {
            Some(m) => match metas_of_doc(fields, i + 1) {
                Some(rest) => Some(seq![m] + rest),
                None => None,
            },
            None => None,
        }
    }
}

/// Reads the whole snapshot document back.
pub open spec fn state_of_doc(v: JsonV) -> Option<(Seq<MetaView>, Option<u64>)> {
    match v {
        JsonV::Obj(fields) => {
            if fields.len() == 3 && fields[0].0 == l_secrets() && fields[1].0
                == l_active_version() && fields[2].0 == l_last_updated() {
                match (fields[0].1, fields[2].1) {
                    (JsonV::Obj(secret_fields), JsonV::Str(_)) => {
                        match metas_of_doc(secret_fields, 0) {
                            Some(metas) => match fields[1].1 {
                                JsonV::Null => Some((metas, None)),
                                JsonV::Num(n) => if n.neg {
                                    None
                                } else {
                                    Some((metas, Some(n.mag)))
                                },
                                _ => None,
                            },
                            None => None,
                        }
                    },
                    _ => None,
                }
            } else {
                None
            }
        },
        _ => None,
    }
}

/// The bytes of the `version` label.
fn b_version() -> (r: Vec<u8>)
    ensures
        r@ == l_version(),
{
    let mut v: Vec<u8> = Vec::new();
    v.push(118);
    v.push(101);
    v.push(114);
    v.push(115);
    v.push(105);
    v.push(111);
    v.push(110);
    proof {
        assert(v@ =~= l_version());
    }
    v
}

/// The bytes of the `state` label.
fn b_state() -> (r: Vec<u8>)
    ensures
        r@ == l_state(),
{
    let mut v: Vec<u8> = Vec::new();
    v.push(115);
    v.push(116);
    v.push(97);
    v.push(116);
    v.push(101);
    proof {
        assert(v@ =~= l_state());
    }
    v
}

/// The bytes of the `valid_from` label.
fn b_valid_from() -> (r: Vec<u8>)
    ensures
        r@ == l_valid_from(),
{
    let mut v: Vec<u8> = Vec::new();
    v.push(118);
    v.push(97);
    v.push(108);
    v.push(105);
    v.push(100);
    v.push(95);
    v.push(102);
    v.push(114);
    v.push(111);
    v.push(109);
    proof {
        assert(v@ =~= l_valid_from());
    }
    v
}

/// The bytes of the `valid_until` label.
fn b_valid_until() -> (r: Vec<u8>)
    ensures
        r@ == l_valid_until(),
{
    let mut v: Vec<u8> = Vec::new();
    v.push(118);
    v.push(97);
    v.push(108);
    v.push(105);
    v.push(100);
    v.push(95);
    v.push(117);
    v.push(110);
    v.push(116);
    v.push(105);
    v.push(108);
    proof {
        assert(v@ =~= l_valid_until());
    }
    v
}

/// The bytes of the `grace_until` label.
fn b_grace_until() -> (r: Vec<u8>)
    ensures
        r@ == l_grace_until(),
{
    let mut v: Vec<u8> = Vec::new();
    v.push(103);
    v.push(114);
    v.push(97);
    v.push(99);
    v.push(101);
    v.push(95);
    v.push(117);
    v.push(110);
    v.push(116);
    v.push(105);
    v.push(108);
    proof {
        assert(v@ =~= l_grace_until());
    }
    v
}

/// The bytes of the `created_at` label.
fn b_created_at() -> (r: Vec<u8>)
    ensures
        r@ == l_created_at(),
{
    let mut v: Vec<u8> = Vec::new();
    v.push(99);
    v.push(114);
    v.push(101);
    v.push(97);
    v.push(116);
    v.push(101);
    v.push(100);
    v.push(95);
    v.push(97);
    v.push(116);
    proof {
        assert(v@ =~= l_created_at());
    }
    v
}

/// The bytes of the `last_used_at` label.
fn b_last_used_at() -> (r: Vec<u8>)
    ensures
        r@ == l_last_used_at(),
{
    let mut v: Vec<u8> = Vec::new();
    v.push(108);
    v.push(97);
    v.push(115);
    v.push(116);
    v.push(95);
    v.push(117);
    v.push(115);
    v.push(101);
    v.push(100);
    v.push(95);
    v.push(97);
    v.push(116);
    proof {
        assert(v@ =~= l_last_used_at());
    }
    v
}

/// The bytes of the `rotation_source` label.
fn b_rotation_source() -> (r: Vec<u8>)
    ensures
        r@ == l_rotation_source(),
{
    let mut v: Vec<u8> = Vec::new();
    v.push(114);
    v.push(111);
    v.push(116);
    v.push(97);
    v.push(116);
    v.push(105);
    v.push(111);
    v.push(110);
    v.push(95);
    v.push(115);
    v.push(111);
    v.push(117);
    v.push(114);
    v.push(99);
    v.push(101);
    proof {
        assert(v@ =~= l_rotation_source());
    }
    v
}

/// The bytes of the `invalidation_reason` label.
fn b_invalidation_reason() -> (r: Vec<u8>)
    ensures
        r@ == l_invalidation_reason(),
{
    let mut v: Vec<u8> = Vec::new();
    v.push(105);
    v.push(110);
    v.push(118);
    v.push(97);
    v.push(108);
    v.push(105);
    v.push(100);
    v.push(97);
    v.push(116);
    v.push(105);
    v.push(111);
    v.push(110);
    v.push(95);
    v.push(114);
    v.push(101);
    v.push(97);
    v.push(115);
    v.push(111);
    v.push(110);
    proof {
        assert(v@ =~= l_invalidation_reason());
    }
    v
}

/// The bytes of the `secrets` label.
fn b_secrets() -> (r: Vec<u8>)
    ensures
        r@ == l_secrets(),
{
    let mut v: Vec<u8> = Vec::new();
    v.push(115);
    v.push(101);
    v.push(99);
    v.push(114);
    v.push(101);
    v.push(116);
    v.push(115);
    proof {
        assert(v@ =~= l_secrets());
    }
    v
}

/// The bytes of the `active_version` label.
fn b_active_version() -> (r: Vec<u8>)
    ensures
        r@ == l_active_version(),
{
    let mut v: Vec<u8> = Vec::new();
    v.push(97);
    v.push(99);
    v.push(116);
    v.push(105);
    v.push(118);
    v.push(101);
    v.push(95);
    v.push(118);
    v.push(101);
    v.push(114);
    v.push(115);
    v.push(105);
    v.push(111);
    v.push(110);
    proof {
        assert(v@ =~= l_active_version());
    }
    v
}

/// The bytes of the `last_updated` label.
fn b_last_updated() -> (r: Vec<u8>)
    ensures
        r@ == l_last_updated(),
{
    let mut v: Vec<u8> = Vec::new();
    v.push(108);
    v.push(97);
    v.push(115);
    v.push(116);
    v.push(95);
    v.push(117);
    v.push(112);
    v.push(100);
    v.push(97);
    v.push(116);
    v.push(101);
    v.push(100);
    proof {
        assert(v@ =~= l_last_updated());
    }
    v
}

/// The bytes of a state name.
fn b_state_label(s: SecretState) -> (r: Vec<u8>)
    ensures
        r@ == state_label(s),
{
    let mut v: Vec<u8> = Vec::new();
    match s {
        SecretState::Absent => { v.push(65); v.push(66); v.push(83); v.push(69); v.push(78); v.push(84); },
        SecretState::Active => { v.push(65); v.push(67); v.push(84); v.push(73); v.push(86); v.push(69); },
        SecretState::Grace => { v.push(71); v.push(82); v.push(65); v.push(67); v.push(69); },
        SecretState::Invalid => { v.push(73); v.push(78); v.push(86); v.push(65); v.push(76); v.push(73); v.push(68); },
    }
    proof {
        assert(v@ =~= state_label(s));
    }
    v
}

/// The bytes of a rotation-source name.
fn b_source_label(s: RotationSource) -> (r: Vec<u8>)
    ensures
        r@ == source_label(s),
{
    let mut v: Vec<u8> = Vec::new();
    match s {
        RotationSource::Automatic => { v.push(65); v.push(85); v.push(84); v.push(79); v.push(77); v.push(65); v.push(84); v.push(73); v.push(67); },
        RotationSource::Manual => { v.push(77); v.push(65); v.push(78); v.push(85); v.push(65); v.push(76); },
        RotationSource::Recovery => { v.push(82); v.push(69); v.push(67); v.push(79); v.push(86); v.push(69); v.push(82); v.push(89); },
    }
    proof {
        assert(v@ =~= source_label(s));
    }
    v
}

/// Reading a written state name yields the state.
proof fn lemma_state_label_inverse(s: SecretState)
    ensures
        state_of_label(state_label(s)) == Some(s),
{
    match s {
        SecretState::Absent => {},
        SecretState::Active => {
            assert(state_label(SecretState::Active) != state_label(SecretState::Absent)) by {
                assert(state_label(SecretState::Active)[1] == 67);
                assert(state_label(SecretState::Absent)[1] == 66);
            }
        },
        SecretState::Grace => {
            assert(state_label(SecretState::Grace) != state_label(SecretState::Absent)) by {
                assert(state_label(SecretState::Grace)[0] == 71);
            }
            assert(state_label(SecretState::Grace) != state_label(SecretState::Active)) by {
                assert(state_label(SecretState::Grace)[0] == 71);
                assert(state_label(SecretState::Active)[0] == 65);
            }
        },
        SecretState::Invalid => {
            assert(state_label(SecretState::Invalid) != state_label(SecretState::Absent)) by {
                assert(state_label(SecretState::Invalid).len() == 7);
                assert(state_label(SecretState::Absent).len() == 6);
            }
            assert(state_label(SecretState::Invalid) != state_label(SecretState::Active)) by {
                assert(state_label(SecretState::Invalid).len() == 7);
                assert(state_label(SecretState::Active).len() == 6);
            }
            assert(state_label(SecretState::Invalid) != state_label(SecretState::Grace)) by {
                assert(state_label(SecretState::Invalid).len() == 7);
                assert(state_label(SecretState::Grace).len() == 5);
            }
        },
    }
}

/// Reading a written rotation-source name yields the source.
proof fn lemma_source_label_inverse(s: RotationSource)
    ensures
        source_of_label(source_label(s)) == Some(s),
{
    match s {
        RotationSource::Automatic => {},
        RotationSource::Manual => {
            assert(source_label(RotationSource::Manual) != source_label(
                RotationSource::Automatic,
            )) by {
                assert(source_label(RotationSource::Manual).len() == 6);
                assert(source_label(RotationSource::Automatic).len() == 9);
            }
        },
        RotationSource::Recovery => {
            assert(source_label(RotationSource::Recovery) != source_label(
                RotationSource::Automatic,
            )) by {
                assert(source_label(RotationSource::Recovery).len() == 8);
                assert(source_label(RotationSource::Automatic).len() == 9);
            }
            assert(source_label(RotationSource::Recovery) != source_label(
                RotationSource::Manual,
            )) by {
                assert(source_label(RotationSource::Recovery).len() == 8);
                assert(source_label(RotationSource::Manual).len() == 6);
            }
        },
    }
}

/// An optional timestamp node, written.
fn json_opt_ts(t: Option<i64>) -> (r: Json)
    requires
        t matches Some(x) ==> ts_ok(x),
    ensures
        r@ == opt_ts_doc(t),
        opt_ts_of_doc(opt_ts_doc(t)) == Some(t),
{
    match t {
        Some(x) => {
            let b = format_rfc3339(x);
            Json::Str(b)
        },
        None => Json::Null,
    }
}

/// An optional text node, written.
fn json_opt_text(s: &Option<String>) -> (r: Json)
    ensures
        r@ == opt_text_doc(
            match s {
                Some(s0) => Some(s0@),
                None => None,
            },
        ),
        opt_text_of_doc(r@) == Some(
            match s {
                Some(s0) => Some(s0@),
                None => None,
            },
        ),
{
    match s {
        Some(st) => {
            let b = str_to_bytes(st.as_str());
            proof {
                vstd::utf8::encode_utf8_valid_utf8(st@);
                vstd::utf8::encode_utf8_decode_utf8(st@);
            }
            Json::Str(b)
        },
        None => Json::Null,
    }
}

/// Writes one metadata record as a document node whose reading is proved
/// to yield the record back.
#[verifier::rlimit(100)]
fn meta_to_json(m: &SecretMetadata) -> (r: Json)
    requires
        crate::types::meta_ok(m@),
    ensures
        r@ == meta_doc(m@),
        meta_of_doc(meta_doc(m@)) == Some(m@),
{
    let mut fields: Vec<(Vec<u8>, Json)> = Vec::new();
    fields.push((b_version(), Json::Num(JsonNum { neg: false, mag: m.version })));
    fields.push((b_state(), Json::Str(b_state_label(m.state))));
    fields.push((b_valid_from(), Json::Str(format_rfc3339(m.valid_from))));
    fields.push((b_valid_until(), Json::Str(format_rfc3339(m.valid_until))));
    fields.push((b_grace_until(), json_opt_ts(m.grace_until)));
    fields.push((b_created_at(), Json::Str(format_rfc3339(m.created_at))));
    fields.push((b_last_used_at(), json_opt_ts(m.last_used_at)));
    fields.push((b_rotation_source(), Json::Str(b_source_label(m.rotation_source))));
    fields.push((b_invalidation_reason(), json_opt_text(&m.invalidation_reason)));
    let r = Json::Obj(fields);
    proof {
        let fs = r->Obj_0@;
        crate::json::lemma_view_members(fs, 0);
        assert(crate::json::view_members(fs, 0) =~= meta_doc(m@)->Obj_0);
        assert(r@ == meta_doc(m@));
        lemma_state_label_inverse(m.state);
        lemma_source_label_inverse(m.rotation_source);
        assert(meta_of_doc(meta_doc(m@)) == Some(m@));
    }
    r
}

/// Appending one member extends the read-back record list by one.
proof fn lemma_metas_of_doc_snoc(fields: Seq<(Seq<u8>, JsonV)>, x: (Seq<u8>, JsonV), i: int)
    requires
        0 <= i <= fields.len(),
        metas_of_doc(fields, i) is Some,
        meta_of_doc(x.1) is Some,
    ensures
        metas_of_doc(fields.push(x), i) == Some(
            metas_of_doc(fields, i).unwrap() + seq![meta_of_doc(x.1).unwrap()],
        ),
    decreases fields.len() - i,
{
    let p = fields.push(x);
    if i == fields.len() {
        assert(p[i] == x);
        assert(metas_of_doc(p, i + 1) == Some(Seq::<MetaView>::empty()));
        assert(seq![meta_of_doc(x.1).unwrap()] + Seq::<MetaView>::empty() =~= seq![
            meta_of_doc(x.1).unwrap(),
        ]);
        assert(metas_of_doc(fields, i).unwrap() + seq![meta_of_doc(x.1).unwrap()] =~= seq![
            meta_of_doc(x.1).unwrap(),
        ]);
    } else {
        assert(p[i] == fields[i]);
        lemma_metas_of_doc_snoc(fields, x, i + 1);
        assert(metas_of_doc(fields, i).unwrap() + seq![meta_of_doc(x.1).unwrap()] =~= seq![
            metas_of_doc(fields, i).unwrap()[0],
        ] + (metas_of_doc(fields, i + 1).unwrap() + seq![meta_of_doc(x.1).unwrap()]));
    }
}

/// Appending one record extends the written member list by one.
proof fn lemma_secrets_doc_snoc(metas: Seq<MetaView>, m: MetaView, i: int)
    requires
        0 <= i <= metas.len(),
    ensures
        secrets_doc(metas.push(m), i) == secrets_doc(metas, i).push(
            (dec_of(m.version as nat), meta_doc(m)),
        ),
    decreases metas.len() - i,
{
    let p = metas.push(m);
    if i == metas.len() {
        assert(p[i] == m);
        assert(secrets_doc(p, i) =~= seq![(dec_of(m.version as nat), meta_doc(m))] + secrets_doc(
            p,
            i + 1,
        ));
        assert(secrets_doc(p, i + 1) =~= Seq::<(Seq<u8>, JsonV)>::empty());
        assert(secrets_doc(metas, i) =~= Seq::<(Seq<u8>, JsonV)>::empty());
        assert(secrets_doc(p, i) =~= secrets_doc(metas, i).push(
            (dec_of(m.version as nat), meta_doc(m)),
        ));
    } else {
        assert(p[i] == metas[i]);
        lemma_secrets_doc_snoc(metas, m, i + 1);
        assert(secrets_doc(p, i) =~= secrets_doc(metas, i).push(
            (dec_of(m.version as nat), meta_doc(m)),
        ));
    }
}

/// Record views of a metadata vector.
pub open spec fn meta_views(s: Seq<SecretMetadata>) -> Seq<MetaView> {
    s.map_values(|m: SecretMetadata| m@)
}

/// The snapshot document is canonical JSON.
proof fn lemma_state_doc_wf(metas: Seq<MetaView>, active: Option<u64>, t: i64)
    ensures
        crate::json::wf_json(state_doc(metas, active, t)),
{
    lemma_secrets_doc_len(metas, 0);
    assert forall|i: int|
        0 <= i < secrets_doc(metas, 0).len() implies crate::json::wf_json(
        #[trigger] secrets_doc(metas, 0)[i].1,
    ) by {
        lemma_secrets_doc_index(metas, 0, i);
        assert(secrets_doc(metas, 0)[i].1 == meta_doc(metas[i]));
        let d = meta_doc(metas[i]);
        assert forall|k: int| 0 <= k < d->Obj_0.len() implies crate::json::wf_json(
            #[trigger] d->Obj_0[k].1,
        ) by {
            assert(crate::json::wf_json(d->Obj_0[0].1));
            assert(crate::json::wf_json(d->Obj_0[1].1));
            assert(crate::json::wf_json(d->Obj_0[2].1));
            assert(crate::json::wf_json(d->Obj_0[3].1));
            assert(crate::json::wf_json(d->Obj_0[4].1));
            assert(crate::json::wf_json(d->Obj_0[5].1));
            assert(crate::json::wf_json(d->Obj_0[6].1));
            assert(crate::json::wf_json(d->Obj_0[7].1));
            assert(crate::json::wf_json(d->Obj_0[8].1));
        }
        assert(crate::json::wf_json(d));
    }
    let top = state_doc(metas, active, t);
    assert forall|k: int| 0 <= k < top->Obj_0.len() implies crate::json::wf_json(
        #[trigger] top->Obj_0[k].1,
    ) by {
        assert(crate::json::wf_json(top->Obj_0[0].1));
        assert(crate::json::wf_json(top->Obj_0[1].1));
        assert(crate::json::wf_json(top->Obj_0[2].1));
    }
}

/// Element-wise description of `secrets_doc`.
proof fn lemma_secrets_doc_index(metas: Seq<MetaView>, i: int, k: int)
    requires
        0 <= i <= metas.len(),
        0 <= k < metas.len() - i,
    ensures
        secrets_doc(metas, i).len() == metas.len() - i,
        secrets_doc(metas, i)[k] == (dec_of(metas[i + k].version as nat), meta_doc(metas[i + k])),
    decreases metas.len() - i,
{
    lemma_secrets_doc_len(metas, i);
    if k > 0 {
        lemma_secrets_doc_index(metas, i + 1, k - 1);
    }
}

proof fn lemma_secrets_doc_len(metas: Seq<MetaView>, i: int)
    requires
        0 <= i <= metas.len(),
    ensures
        secrets_doc(metas, i).len() == metas.len() - i,
    decreases metas.len() - i,
{
    if i < metas.len() {
        lemma_secrets_doc_len(metas, i + 1);
    }
}

/// Renders the whole snapshot. The reading of the document it writes is
/// proved to be exactly the given records and active pointer, so a loaded
/// snapshot matches what was saved.
#[verifier::rlimit(100)]
pub fn render_state(secrets: &Vec<SecretMetadata>, active: Option<u64>, now: i64) -> (r: Vec<u8>)
    requires
        forall|i: int| 0 <= i < secrets@.len() ==> crate::types::meta_ok((#[trigger] secrets@[i])@),
        ts_ok(now),
    ensures
        r@ == spec_render(state_doc(meta_views(secrets@), active, now)),
        crate::json::spec_parse(r@) == Some(state_doc(meta_views(secrets@), active, now)),
        state_of_doc(state_doc(meta_views(secrets@), active, now)) == Some(
            (meta_views(secrets@), active),
        ),
{
    let mut members: Vec<(Vec<u8>, Json)> = Vec::new();
    let mut i: usize = 0;
    while i < secrets.len()
        invariant
            i <= secrets@.len(),
            forall|k: int|
                0 <= k < secrets@.len() ==> crate::types::meta_ok((#[trigger] secrets@[k])@),
            crate::json::view_members(members@, 0) == secrets_doc(
                meta_views(secrets@).subrange(0, i as int),
                0,
            ),
            metas_of_doc(crate::json::view_members(members@, 0), 0) == Some(
                meta_views(secrets@).subrange(0, i as int),
            ),
        decreases secrets@.len() - i,
    {
        let ghost prefix = meta_views(secrets@).subrange(0, i as int);
        let ghost pre_members = members@;
        let ghost pre_view = crate::json::view_members(members@, 0);
        let node = meta_to_json(&secrets[i]);
        let mut key: Vec<u8> = Vec::new();
        push_dec(&mut key, secrets[i].version);
        let ghost key_view = key@;
        let ghost node_view = node@;
        members.push((key, node));
        proof {
            let mv = secrets@[i as int]@;
            assert(key_view =~= dec_of(mv.version as nat));
            assert(node_view == meta_doc(mv));
            lemma_secrets_doc_snoc(prefix, mv, 0);
            crate::json::lemma_view_members(members@, 0);
            crate::json::lemma_view_members(pre_members, 0);
            assert(members@ == pre_members.push(members@[members@.len() - 1]));
            assert(crate::json::view_members(members@, 0) =~= pre_view.push(
                (dec_of(mv.version as nat), meta_doc(mv)),
            ));
            assert(meta_views(secrets@).subrange(0, i + 1) =~= prefix.push(mv));
            lemma_metas_of_doc_snoc(pre_view, (dec_of(mv.version as nat), meta_doc(mv)), 0);
            assert(prefix + seq![mv] =~= prefix.push(mv));
        }
        i += 1;
    }
    proof {
        assert(meta_views(secrets@).subrange(0, secrets@.len() as int) =~= meta_views(secrets@));
    }
    let active_node = match active {
        Some(v) => Json::Num(JsonNum { neg: false, mag: v }),
        None => Json::Null,
    };
    let updated = format_rfc3339(now);
    let mut top: Vec<(Vec<u8>, Json)> = Vec::new();
    top.push((b_secrets(), Json::Obj(members)));
    top.push((b_active_version(), active_node));
    top.push((b_last_updated(), Json::Str(updated)));
    let doc = Json::Obj(top);
    proof {
        let fs = doc->Obj_0@;
        crate::json::lemma_view_members(fs, 0);
        assert(crate::json::view_members(fs, 0) =~= state_doc(
            meta_views(secrets@),
            active,
            now,
        )->Obj_0);
        assert(doc@ == state_doc(meta_views(secrets@), active, now));
        lemma_state_doc_wf(meta_views(secrets@), active, now);
        crate::json::lemma_render_parse(doc@);
        assert(state_of_doc(state_doc(meta_views(secrets@), active, now)) == Some(
            (meta_views(secrets@), active),
        ));
    }
    crate::json::render(&doc)
}

/// Copies a byte slice.
pub fn slice_to_vec_pub(b: &[u8]) -> (r: Vec<u8>)
    ensures
        r@ == b@,
{
    let mut out: Vec<u8> = Vec::new();
    let mut i: usize = 0;
    while i < b.len()
        invariant
            i <= b@.len(),
            out@ == b@.subrange(0, i as int),
        decreases b@.len() - i,
    {
        out.push(b[i]);
        proof {
            assert(out@ =~= b@.subrange(0, i + 1));
        }
        i += 1;
    }
    proof {
        assert(b@.subrange(0, b@.len() as int) =~= b@);
    }
    out
}

/// Copies the bytes of a stored string value.
pub(crate) fn str_bytes_copy(b: &Vec<u8>) -> (r: Vec<u8>)
    ensures
        r@ == b@,
{
    slice_to_vec_pub(b.as_slice())
}

/// Reads a state name.
fn state_from_bytes(b: &[u8]) -> (r: Option<SecretState>)
    ensures
        r == state_of_label(b@),
{
    if constant_time_compare(b, b_state_label(SecretState::Absent).as_slice()) {
        Some(SecretState::Absent)
    } else if constant_time_compare(b, b_state_label(SecretState::Active).as_slice()) {
        Some(SecretState::Active)
    } else if constant_time_compare(b, b_state_label(SecretState::Grace).as_slice()) {
        Some(SecretState::Grace)
    } else if constant_time_compare(b, b_state_label(SecretState::Invalid).as_slice()) {
        Some(SecretState::Invalid)
    } else {
        None
    }
}

/// Reads a rotation-source name.
fn source_from_bytes(b: &[u8]) -> (r: Option<RotationSource>)
    ensures
        r == source_of_label(b@),
{
    if constant_time_compare(b, b_source_label(RotationSource::Automatic).as_slice()) {
        Some(RotationSource::Automatic)
    } else if constant_time_compare(b, b_source_label(RotationSource::Manual).as_slice()) {
        Some(RotationSource::Manual)
    } else if constant_time_compare(b, b_source_label(RotationSource::Recovery).as_slice()) {
        Some(RotationSource::Recovery)
    } else {
        None
    }
}

/// Reads a timestamp node.
fn ts_from_json(v: &Json) -> (r: Option<i64>)
    ensures
        r == ts_of_doc(v@),
{
    match v {
        Json::Str(b) => parse_rfc3339(b.as_slice()),
        _ => None,
    }
}

/// Reads an optional timestamp node.
fn opt_ts_from_json(v: &Json) -> (r: Option<Option<i64>>)
    ensures
        r == opt_ts_of_doc(v@),
{
    match v {
        Json::Null => Some(None),
        Json::Str(b) => match parse_rfc3339(b.as_slice()) {
            Some(t) => Some(Some(t)),
            None => None,
        },
        _ => None,
    }
}

/// Reads an optional text node.
fn opt_text_from_json(v: &Json) -> (r: Option<Option<String>>)
    ensures
        match r {
            Some(s) => opt_text_of_doc(v@) == Some(
                match s {
                    Some(s0) => Some(s0@),
                    None => None,
                },
            ),
            None => opt_text_of_doc(v@) is None,
        },
{
    match v {
        Json::Null => Some(None),
        Json::Str(b) => {
            let copy = slice_to_vec_pub(b.as_slice());
            match string_from_utf8(copy) {
                Some(s) => Some(Some(s)),
                None => None,
            }
        },
        _ => None,
    }
}

/// Reads one metadata record, exactly as `meta_of_doc` describes.
#[verifier::rlimit(100)]
fn meta_from_json(v: &Json) -> (r: Option<SecretMetadata>)
    ensures
        match r {
            Some(m) => meta_of_doc(v@) == Some(m@),
            None => meta_of_doc(v@) is None,
        },
{
    let fields = match v {
        Json::Obj(fields) => fields,
        _ => {
            return None;
        },
    };
    proof {
        crate::json::lemma_view_members(fields@, 0);
    }
    if fields.len() != 9 {
        return None;
    }
    if !(constant_time_compare(fields[0].0.as_slice(), b_version().as_slice())
        && constant_time_compare(fields[1].0.as_slice(), b_state().as_slice())
        && constant_time_compare(fields[2].0.as_slice(), b_valid_from().as_slice())
        && constant_time_compare(fields[3].0.as_slice(), b_valid_until().as_slice())
        && constant_time_compare(fields[4].0.as_slice(), b_grace_until().as_slice())
        && constant_time_compare(fields[5].0.as_slice(), b_created_at().as_slice())
        && constant_time_compare(fields[6].0.as_slice(), b_last_used_at().as_slice())
        && constant_time_compare(fields[7].0.as_slice(), b_rotation_source().as_slice())
        && constant_time_compare(fields[8].0.as_slice(), b_invalidation_reason().as_slice())) {
        return None;
    }
    let version = match &fields[0].1 {
        Json::Num(n) => {
            if n.neg {
                return None;
            }
            n.mag
        },
        _ => {
            return None;
        },
    };
    let state = match &fields[1].1 {
        Json::Str(sb) => match state_from_bytes(sb.as_slice()) {
            Some(s) => s,
            None => {
                return None;
            },
        },
        _ => {
            return None;
        },
    };
    let valid_from = match ts_from_json(&fields[2].1) {
        Some(t) => t,
        None => {
            return None;
        },
    };
    let valid_until = match ts_from_json(&fields[3].1) {
        Some(t) => t,
        None => {
            return None;
        },
    };
    let grace_until = match opt_ts_from_json(&fields[4].1) {
        Some(t) => t,
        None => {
            return None;
        },
    };
    let created_at = match ts_from_json(&fields[5].1) {
        Some(t) => t,
        None => {
            return None;
        },
    };
    let last_used_at = match opt_ts_from_json(&fields[6].1) {
        Some(t) => t,
        None => {
            return None;
        },
    };
    let rotation_source = match &fields[7].1 {
        Json::Str(rb) => match source_from_bytes(rb.as_slice()) {
            Some(s) => s,
            None => {
                return None;
            },
        },
        _ => {
            return None;
        },
    };
    let invalidation_reason = match opt_text_from_json(&fields[8].1) {
        Some(s) => s,
        None => {
            return None;
        },
    };
    Some(
        SecretMetadata {
            version,
            state,
            valid_from,
            valid_until,
            grace_until,
            created_at,
            last_used_at,
            rotation_source,
            invalidation_reason,
        },
    )
}

/// Reads the member list of the `secrets` object, exactly as
/// `metas_of_doc` describes.
fn metas_from_json(fields: &Vec<(Vec<u8>, Json)>) -> (r: Option<Vec<SecretMetadata>>)
    ensures
        match r {
            Some(list) => metas_of_doc(crate::json::view_members(fields@, 0), 0) == Some(
                meta_views(list@),
            ),
            None => metas_of_doc(crate::json::view_members(fields@, 0), 0) is None,
        },
{
    let ghost vf = crate::json::view_members(fields@, 0);
    proof {
        crate::json::lemma_view_members(fields@, 0);
    }
    let mut out: Vec<SecretMetadata> = Vec::new();
    let mut i: usize = 0;
    while i < fields.len()
        invariant
            i <= fields@.len(),
            vf == crate::json::view_members(fields@, 0),
            vf.len() == fields@.len(),
            forall|k: int|
                0 <= k < fields@.len() ==> #[trigger] vf[k] == (
                fields@[k].0@,
                crate::json::json_view(fields@[k].1),
            ),
            metas_of_doc(vf, i as int) matches Some(tail) ==> metas_of_doc(vf, 0) == Some(
                meta_views(out@) + tail,
            ),
            metas_of_doc(vf, i as int) is None ==> metas_of_doc(vf, 0) is None,
        decreases fields@.len() - i,
    {
        let ghost pre_out = out@;
        match meta_from_json(&fields[i].1) {
            Some(m) => {
                let ghost mv = m@;
                out.push(m);
                proof {
                    assert(meta_views(out@) =~= meta_views(pre_out).push(mv));
                    assert(meta_of_doc(vf[i as int].1) == Some(mv));
                    if metas_of_doc(vf, i + 1) is Some {
                        let tail = metas_of_doc(vf, i + 1)->Some_0;
                        assert(metas_of_doc(vf, i as int) == Some(seq![mv] + tail));
                        assert(meta_views(pre_out) + (seq![mv] + tail) =~= meta_views(out@)
                            + tail);
                    } else {
                        assert(metas_of_doc(vf, i as int) is None);
                    }
                }
                i += 1;
            },
            None => {
                proof {
                    assert(metas_of_doc(vf, i as int) is None);
                    assert(metas_of_doc(vf, 0) is None);
                }
                return None;
            },
        }
    }
    proof {
        assert(metas_of_doc(vf, vf.len() as int) == Some(Seq::<MetaView>::empty()));
        assert(meta_views(out@) + Seq::<MetaView>::empty() =~= meta_views(out@));
    }
    Some(out)
}

/// Reads the whole snapshot from its bytes: the records in file order and
/// the active pointer, exactly as parsing then `state_of_doc` describe.
pub fn parse_state(data: &[u8]) -> (r: Result<(Vec<SecretMetadata>, Option<u64>), AgentError>)
    ensures
        match r {
            Ok(p) => {
                &&& crate::json::spec_parse(data@) matches Some(doc)
                &&& state_of_doc(crate::json::spec_parse(data@).unwrap()) == Some(
                    (meta_views(p.0@), p.1),
                )
            },
            Err(e) => (match crate::json::spec_parse(data@) {
                None => true,
                Some(doc) => state_of_doc(doc) is None,
            }) && e is InternalError,
        },
{
    let doc = match crate::json::parse_json(data) {
        Some(doc) => doc,
        None => {
            return Err(AgentError::InternalError("Failed to parse state".to_owned()));
        },
    };
    let top = match &doc {
        Json::Obj(fields) => fields,
        _ => {
            return Err(AgentError::InternalError("Failed to parse state".to_owned()));
        },
    };
    proof {
        crate::json::lemma_view_members(top@, 0);
    }
    if top.len() != 3 {
        return Err(AgentError::InternalError("Failed to parse state".to_owned()));
    }
    if !(constant_time_compare(top[0].0.as_slice(), b_secrets().as_slice())
        && constant_time_compare(top[1].0.as_slice(), b_active_version().as_slice())
        && constant_time_compare(top[2].0.as_slice(), b_last_updated().as_slice())) {
        return Err(AgentError::InternalError("Failed to parse state".to_owned()));
    }
    match &top[2].1 {
        Json::Str(_) => {},
        _ => {
            return Err(AgentError::InternalError("Failed to parse state".to_owned()));
        },
    }
    let secret_fields = match &top[0].1 {
        Json::Obj(fields) => fields,
        _ => {
            return Err(AgentError::InternalError("Failed to parse state".to_owned()));
        },
    };
    let metas = match metas_from_json(secret_fields) {
        Some(list) => list,
        None => {
            return Err(AgentError::InternalError("Failed to parse state".to_owned()));
        },
    };
    let active = match &top[1].1 {
        Json::Null => None,
        Json::Num(n) => {
            if n.neg {
                return Err(AgentError::InternalError("Failed to parse state".to_owned()));
            }
            Some(n.mag)
        },
        _ => {
            return Err(AgentError::InternalError("Failed to parse state".to_owned()));
        },
    };
    Ok((metas, active))
}

} // verus!
