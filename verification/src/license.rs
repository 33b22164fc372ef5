//! The token validator.
//!
//! A license token is base64 of: version (8 bytes big-endian), a 12-byte
//! nonce, then AES-256-GCM ciphertext with its 16-byte tag. Validation
//! resolves the embedded version against the store (the active version
//! first, then the GRACE versions), decrypts, reads the license JSON and
//! enforces its expiry. Every failure is reported as the single uniform
//! `LicenseValidationFailed` kind, so a probing client cannot distinguish
//! an unknown version from a bad tag or an expired license.
//!
//! `token_accepted` is the acceptance function: validation succeeds on
//! exactly the tokens it accepts.

use vstd::prelude::*;
use vstd::utf8::{decode_utf8, valid_utf8};
use crate::crypto::b64_decode;
use crate::json::{view_members, Json, JsonV};
use crate::persist::{rfc3339_val, string_from_utf8};
use crate::secret::{grace_collectable, readable, SecretManager};
use crate::tpm::{aead_open, unsealed};
use crate::types::{AgentError, AgentResult, LicenseInfo, Secret, ValidationResult};

verus! {

/// Mathematical view of a license record.
pub struct LicenseView {
    pub license_id: Seq<char>,
    pub customer_id: Seq<char>,
    pub features: Seq<Seq<char>>,
    pub expires_at: i64,
    pub metadata: Seq<(Seq<char>, Seq<char>)>,
}

impl View for LicenseInfo {
    type V = LicenseView;

    open spec fn view(&self) -> LicenseView {
        LicenseView {
            license_id: self.license_id@,
            customer_id: self.customer_id@,
            features: Seq::new(self.features@.len(), |i: int| self.features@[i]@),
            expires_at: self.expires_at,
            metadata: Seq::new(
                self.metadata@.len(),
                |i: int| (self.metadata@[i].0@, self.metadata@[i].1@),
            ),
        }
    }
}

/// The version embedded in a token header (bytes 0..8, big-endian).
pub open spec fn token_version(raw: Seq<u8>) -> u64 {
    ((raw[0] as u64) << 56) | ((raw[1] as u64) << 48) | ((raw[2] as u64) << 40) | ((raw[3]
        as u64) << 32) | ((raw[4] as u64) << 24) | ((raw[5] as u64) << 16) | ((raw[6] as u64)
        << 8) | (raw[7] as u64)
}

/// The key bytes version `v` resolves to at `now`: the unsealed blob of the
/// active version when `v` is it and it is readable, else of a readable
/// GRACE version `v`. `None` when the version does not resolve.
pub open spec fn resolve_key(s: &SecretManager, v: u64, now: i64) -> Option<Seq<u8>> {
    if s.active() == Some(v) {
        if s.has_version(v) && readable(s.metas()[s.idx(v)], now) && s.blobs()[s.idx(v)].len() > 0
            && unsealed(s.seal_key(), s.blobs()[s.idx(v)]) is Some {
            unsealed(s.seal_key(), s.blobs()[s.idx(v)])
        } else {
            None
        }
    } else if s.has_version(v) && s.metas()[s.idx(v)].state
        == crate::types::SecretState::Grace && readable(s.metas()[s.idx(v)], now)
        && s.blobs()[s.idx(v)].len() > 0 && unsealed(s.seal_key(), s.blobs()[s.idx(v)]) is Some {
        unsealed(s.seal_key(), s.blobs()[s.idx(v)])
    } else {
        None
    }
}

/// Looks a field up by name, first match wins.
pub open spec fn obj_lookup(fields: Seq<(Seq<u8>, JsonV)>, name: Seq<u8>) -> Option<JsonV>
    decreases fields.len(),
{
    if fields.len() == 0 {
        None
    } else if fields[0].0 == name {
        Some(fields[0].1)
    } else {
        obj_lookup(fields.drop_first(), name)
    }
}

/// Text of a string node.
pub open spec fn text_of(b: Seq<u8>) -> Option<Seq<char>> {
    if valid_utf8(b) {
        Some(decode_utf8(b))
    } else {
        None
    }
}

/// Texts of an array of string nodes.
pub open spec fn texts_of(items: Seq<JsonV>, i: int) -> Option<Seq<Seq<char>>>
    decreases items.len() - i,
{
    if i < 0 || i > items.len() {
        None
    } else if i == items.len() {
        Some(Seq::empty())
    } else {
        match items[i] {
            JsonV::Str(b) => match (text_of(b), texts_of(items, i + 1)) {
                (Some(t), Some(rest)) => Some(seq![t] + rest),
                _ => None,
            },
            _ => None,
        }
    }
}

/// Text pairs of an object of string nodes.
pub open spec fn pairs_of(fields: Seq<(Seq<u8>, JsonV)>, i: int) -> Option<
    Seq<(Seq<char>, Seq<char>)>,
>
    decreases fields.len() - i,
{
    if i < 0 || i > fields.len() {
        None
    } else if i == fields.len() {
        Some(Seq::empty())
    } else {
        match fields[i].1 {
            JsonV::Str(b) => match (text_of(fields[i].0), text_of(b), pairs_of(fields, i + 1)) {
                (Some(k), Some(v), Some(rest)) => Some(seq![(k, v)] + rest),
                _ => None,
            },
            _ => None,
        }
    }
}

pub open spec fn l_license_id() -> Seq<u8> {
    seq![108u8, 105u8, 99u8, 101u8, 110u8, 115u8, 101u8, 95u8, 105u8, 100u8]
}

pub open spec fn l_customer_id() -> Seq<u8> {
    seq![99u8, 117u8, 115u8, 116u8, 111u8, 109u8, 101u8, 114u8, 95u8, 105u8, 100u8]
}

pub open spec fn l_features() -> Seq<u8> {
    seq![102u8, 101u8, 97u8, 116u8, 117u8, 114u8, 101u8, 115u8]
}

pub open spec fn l_expires_at() -> Seq<u8> {
    seq![101u8, 120u8, 112u8, 105u8, 114u8, 101u8, 115u8, 95u8, 97u8, 116u8]
}

pub open spec fn l_metadata() -> Seq<u8> {
    seq![109u8, 101u8, 116u8, 97u8, 100u8, 97u8, 116u8, 97u8]
}

/// Reads a license record from its document: the five named fields, found
/// by name anywhere in the object; `expires_at` is an RFC 3339 string.
pub open spec fn license_of_doc(v: JsonV) -> Option<LicenseView> {
    match v {
        JsonV::Obj(fields) => {
            match (
                obj_lookup(fields, l_license_id()),
                obj_lookup(fields, l_customer_id()),
                obj_lookup(fields, l_features()),
                obj_lookup(fields, l_expires_at()),
                obj_lookup(fields, l_metadata()),
            ) {
                (
                    Some(JsonV::Str(lid)),
                    Some(JsonV::Str(cid)),
                    Some(JsonV::Arr(feats)),
                    Some(JsonV::Str(exp)),
                    Some(JsonV::Obj(meta)),
                ) => {
                    match (
                        text_of(lid),
                        text_of(cid),
                        texts_of(feats, 0),
                        rfc3339_val(exp),
                        pairs_of(meta, 0),
                    ) {
                        (Some(l), Some(c), Some(f), Some(e), Some(m)) => Some(
                            LicenseView {
                                license_id: l,
                                customer_id: c,
                                features: f,
                                expires_at: e,
                                metadata: m,
                            },
                        ),
                        _ => None,
                    }
                },
                _ => None,
            }
        },
        _ => None,
    }
}

/// The acceptance function: what validating the decoded token bytes `raw`
/// against store `s` at `now` yields. The token must be long enough, its
/// version must resolve to a 32-byte key, the payload must decrypt under
/// that key and the embedded nonce, parse as a license document, and not
/// yet be expired.
pub open spec fn token_accepted(s: &SecretManager, raw: Seq<u8>, now: i64) -> Option<LicenseView> {
    if raw.len() < 36 {
        None
    } else {
        match resolve_key(s, token_version(raw), now) {
            Some(key) => {
                if key.len() == 32 {
                    match aead_open(key, raw.subrange(8, 20), raw.skip(20)) {
                        Some(pt) => match crate::json::spec_parse(pt) {
                            Some(doc) => match license_of_doc(doc) {
                                Some(lv) => if now <= lv.expires_at {
                                    Some(lv)
                                } else {
                                    None
                                },
                                None => None,
                            },
                            None => None,
                        },
                        None => None,
                    }
                } else {
                    None
                }
            },
            None => None,
        }
    }
}

/// Validation accepts a token exactly when its version resolves and the
/// license inside is not yet expired. For decoded bytes `raw` whose version
/// resolves to the 32-byte key `key` and whose payload decrypts and parses
/// to the license `lv`, acceptance at `now` comes down to the expiry check;
/// and whenever the version does not resolve - it is unknown, INVALID, or
/// outside its window - nothing is accepted.
pub proof fn lemma_token_acceptance(s: &SecretManager, raw: Seq<u8>, now: i64, lv: LicenseView)
    requires
        s.wf(),
        raw.len() >= 36,
        resolve_key(s, token_version(raw), now) matches Some(key) ==> key.len() == 32 && {
            &&& aead_open(key, raw.subrange(8, 20), raw.skip(20)) matches Some(pt)
            &&& crate::json::spec_parse(
                aead_open(key, raw.subrange(8, 20), raw.skip(20)).unwrap(),
            ) matches Some(doc)
            &&& license_of_doc(doc) == Some(lv)
        },
    ensures
        resolve_key(s, token_version(raw), now) is Some ==> token_accepted(s, raw, now) == (
        if now <= lv.expires_at {
            Some(lv)
        } else {
            None
        }),
        resolve_key(s, token_version(raw), now) is None ==> token_accepted(s, raw, now) is None,
{
}

/// Zeroes the key bytes of every secret in the list before it is
/// released.
fn wipe_secrets(list: Vec<Secret>)
{
    let mut list = list;
    while list.len() > 0
        decreases list@.len(),
    {
        match list.pop() {
            Some(sec) => {
                let mut data = sec.data;
                crate::tpm::wipe(&mut data);
            },
            None => {},
        }
    }
}

/// The validator. It holds no state of its own; each call reads one
/// consistent snapshot of the store.
pub struct LicenseValidator {
}

impl LicenseValidator {
    pub fn new() -> (r: LicenseValidator) {
        LicenseValidator {  }
    }

    /// Resolves the secret for a token version: the active secret when the
    /// version is the active one, else a matching GRACE secret.
    fn get_secret_for_version(
        &self,
        manager: &SecretManager,
        version: u64,
        now: i64,
    ) -> (r: Option<Secret>)
        requires
            manager.wf(),
        ensures
            match r {
                Some(sec) => resolve_key(manager, version, now) == Some(sec.data@),
                None => resolve_key(manager, version, now) is None,
            },
    {
        let is_active = match manager.active_version() {
            Some(av) => av == version,
            None => false,
        };
        if is_active {
            proof {
                let w = choose|i: int|
                    0 <= i < manager.metas().len() && manager.metas()[i].version == version;
                assert(manager.metas()[w].version == version);
            }
            match manager.get_active_secret(now) {
                Ok(sec) => {
                    proof {
                        assert(unsealed(manager.seal_key(), manager.blobs()[manager.idx(version)])
                            == Some(sec.data@));
                        assert(manager.blobs()[manager.idx(version)].len() >= 12);
                    }
                    Some(sec)
                },
                Err(_) => None,
            }
        } else {
            let grace = match manager.get_grace_secrets(now) {
                Ok(list) => list,
                Err(_) => {
                    return None;
                },
            };
            let mut grace = grace;
            let mut k: usize = 0;
            while k < grace.len()
                invariant
                    manager.wf(),
                    k <= grace@.len(),
                    manager.active() != Some(version),
                    forall|j: int|
                        0 <= j < grace@.len() ==> crate::secret::grace_elem_ok(
                            manager,
                            #[trigger] grace@[j],
                            now,
                        ),
                    forall|i: int| #![trigger grace_collectable(manager, i, now)]
                        grace_collectable(manager, i, now) ==> exists|j: int|
                            0 <= j < grace@.len() && (#[trigger] grace@[j]).metadata@
                                == manager.metas()[i],
                    forall|j: int|
                        0 <= j < k ==> (#[trigger] grace@[j]).metadata@.version != version,
                decreases grace@.len() - k,
            {
                if grace[k].metadata.version == version {
                    let sec = grace.remove(k);
                    proof {
                        assert(crate::secret::grace_elem_ok(manager, sec, now));
                        assert(sec.metadata@.version == version);
                        assert(resolve_key(manager, version, now) == Some(sec.data@));
                    }
                    wipe_secrets(grace);
                    return Some(sec);
                }
                k += 1;
            }
            proof {
                if resolve_key(manager, version, now) is Some {
                    assert(grace_collectable(manager, manager.idx(version), now));
                    let j = choose|j: int|
                        0 <= j < grace@.len() && (#[trigger] grace@[j]).metadata@
                            == manager.metas()[manager.idx(version)];
                    assert(grace@[j].metadata@.version == version);
                }
            }
            wipe_secrets(grace);
            None
        }
    }
}

/// Views of a string vector.
pub open spec fn strings_view(s: Seq<String>) -> Seq<Seq<char>> {
    Seq::new(s.len(), |i: int| s[i]@)
}

/// Views of a string-pair vector.
pub open spec fn string_pairs_view(s: Seq<(String, String)>) -> Seq<(Seq<char>, Seq<char>)> {
    Seq::new(s.len(), |i: int| (s[i].0@, s[i].1@))
}

/// Finds a field by name, first match wins, as `obj_lookup` describes.
pub(crate) fn obj_get<'a>(fields: &'a Vec<(Vec<u8>, Json)>, name: &[u8]) -> (r: Option<&'a Json>)
    ensures
        match r {
            Some(v) => obj_lookup(view_members(fields@, 0), name@) == Some(v@),
            None => obj_lookup(view_members(fields@, 0), name@) is None,
        },
{
    let ghost vf = view_members(fields@, 0);
    proof {
        crate::json::lemma_view_members(fields@, 0);
        assert(vf.skip(0) =~= vf);
    }
    let mut k: usize = 0;
    while k < fields.len()
        invariant
            k <= fields@.len(),
            vf == view_members(fields@, 0),
            vf.len() == fields@.len(),
            forall|j: int|
                0 <= j < fields@.len() ==> #[trigger] vf[j] == (
                fields@[j].0@,
                crate::json::json_view(fields@[j].1),
            ),
            obj_lookup(vf, name@) == obj_lookup(vf.skip(k as int), name@),
        decreases fields@.len() - k,
    {
        proof {
            assert(vf.skip(k as int)[0] == vf[k as int]);
            assert(vf.skip(k as int).drop_first() =~= vf.skip(k + 1));
        }
        if crate::crypto::constant_time_compare(fields[k].0.as_slice(), name) {
            return Some(&fields[k].1);
        }
        k += 1;
    }
    proof {
        assert(vf.skip(vf.len() as int).len() == 0);
    }
    None
}

/// Reads an array of strings, as `texts_of` describes.
fn strings_from_arr(items: &Vec<Json>) -> (r: Option<Vec<String>>)
    ensures
        match r {
            Some(list) => texts_of(crate::json::view_items(items@, 0), 0) == Some(
                strings_view(list@),
            ),
            None => texts_of(crate::json::view_items(items@, 0), 0) is None,
        },
{
    let ghost vi = crate::json::view_items(items@, 0);
    proof {
        crate::json::lemma_view_items(items@, 0);
    }
    let mut out: Vec<String> = Vec::new();
    let mut k: usize = 0;
    while k < items.len()
        invariant
            k <= items@.len(),
            vi == crate::json::view_items(items@, 0),
            vi.len() == items@.len(),
            forall|j: int|
                0 <= j < items@.len() ==> #[trigger] vi[j] == crate::json::json_view(items@[j]),
            texts_of(vi, k as int) matches Some(tail) ==> texts_of(vi, 0) == Some(
                strings_view(out@) + tail,
            ),
            texts_of(vi, k as int) is None ==> texts_of(vi, 0) is None,
        decreases items@.len() - k,
    {
        let ghost pre_out = out@;
        let b = match &items[k] {
            Json::Str(b) => b,
            _ => {
                proof {
                    assert(texts_of(vi, k as int) is None);
                }
                return None;
            },
        };
        let copy = crate::persist::str_bytes_copy(b);
        match string_from_utf8(copy) {
            Some(s) => {
                let ghost sv = s@;
                out.push(s);
                proof {
                    assert(strings_view(out@) =~= strings_view(pre_out).push(sv));
                    assert(text_of(vi[k as int]->Str_0) == Some(sv));
                    if texts_of(vi, k + 1) is Some {
                        let tail = texts_of(vi, k + 1)->Some_0;
                        assert(texts_of(vi, k as int) == Some(seq![sv] + tail));
                        assert(strings_view(pre_out) + (seq![sv] + tail) =~= strings_view(out@)
                            + tail);
                    } else {
                        assert(texts_of(vi, k as int) is None);
                    }
                }
                k += 1;
            },
            None => {
                proof {
                    assert(texts_of(vi, k as int) is None);
                }
                return None;
            },
        }
    }
    proof {
        assert(texts_of(vi, vi.len() as int) == Some(Seq::<Seq<char>>::empty()));
        assert(strings_view(out@) + Seq::<Seq<char>>::empty() =~= strings_view(out@));
    }
    Some(out)
}

/// Reads an object of strings, as `pairs_of` describes.
fn pairs_from_obj(fields: &Vec<(Vec<u8>, Json)>) -> (r: Option<Vec<(String, String)>>)
    ensures
        match r {
            Some(list) => pairs_of(view_members(fields@, 0), 0) == Some(
                string_pairs_view(list@),
            ),
            None => pairs_of(view_members(fields@, 0), 0) is None,
        },
{
    let ghost vf = view_members(fields@, 0);
    proof {
        crate::json::lemma_view_members(fields@, 0);
    }
    let mut out: Vec<(String, String)> = Vec::new();
    let mut k: usize = 0;
    while k < fields.len()
        invariant
            k <= fields@.len(),
            vf == view_members(fields@, 0),
            vf.len() == fields@.len(),
            forall|j: int|
                0 <= j < fields@.len() ==> #[trigger] vf[j] == (
                fields@[j].0@,
                crate::json::json_view(fields@[j].1),
            ),
            pairs_of(vf, k as int) matches Some(tail) ==> pairs_of(vf, 0) == Some(
                string_pairs_view(out@) + tail,
            ),
            pairs_of(vf, k as int) is None ==> pairs_of(vf, 0) is None,
        decreases fields@.len() - k,
    {
        let ghost pre_out = out@;
        let vb = match &fields[k].1 {
            Json::Str(b) => b,
            _ => {
                proof {
                    assert(pairs_of(vf, k as int) is None);
                }
                return None;
            },
        };
        let key_copy = crate::persist::str_bytes_copy(&fields[k].0);
        let val_copy = crate::persist::str_bytes_copy(vb);
        let key_s = match string_from_utf8(key_copy) {
            Some(s) => s,
            None => {
                proof {
                    assert(pairs_of(vf, k as int) is None);
                }
                return None;
            },
        };
        let val_s = match string_from_utf8(val_copy) {
            Some(s) => s,
            None => {
                proof {
                    assert(pairs_of(vf, k as int) is None);
                }
                return None;
            },
        };
        let ghost kv = key_s@;
        let ghost vv = val_s@;
        out.push((key_s, val_s));
        proof {
            assert(string_pairs_view(out@) =~= string_pairs_view(pre_out).push((kv, vv)));
            if pairs_of(vf, k + 1) is Some {
                let tail = pairs_of(vf, k + 1)->Some_0;
                assert(pairs_of(vf, k as int) == Some(seq![(kv, vv)] + tail));
                assert(string_pairs_view(pre_out) + (seq![(kv, vv)] + tail) =~=
                    string_pairs_view(out@) + tail);
            } else {
                assert(pairs_of(vf, k as int) is None);
            }
        }
        k += 1;
    }
    proof {
        assert(pairs_of(vf, vf.len() as int) == Some(Seq::<(Seq<char>, Seq<char>)>::empty()));
        assert(string_pairs_view(out@) + Seq::<(Seq<char>, Seq<char>)>::empty() =~=
            string_pairs_view(out@));
    }
    Some(out)
}

/// The bytes of the `license_id` field name.
fn bl_license_id() -> (r: Vec<u8>)
    ensures
        r@ == l_license_id(),
{
    let mut v: Vec<u8> = Vec::new();
    v.push(108);
    v.push(105);
    v.push(99);
    v.push(101);
    v.push(110);
    v.push(115);
    v.push(101);
    v.push(95);
    v.push(105);
    v.push(100);
    proof {
        assert(v@ =~= l_license_id());
    }
    v
}

/// The bytes of the `customer_id` field name.
fn bl_customer_id() -> (r: Vec<u8>)
    ensures
        r@ == l_customer_id(),
{
    let mut v: Vec<u8> = Vec::new();
    v.push(99);
    v.push(117);
    v.push(115);
    v.push(116);
    v.push(111);
    v.push(109);
    v.push(101);
    v.push(114);
    v.push(95);
    v.push(105);
    v.push(100);
    proof {
        assert(v@ =~= l_customer_id());
    }
    v
}

/// The bytes of the `features` field name.
fn bl_features() -> (r: Vec<u8>)
    ensures
        r@ == l_features(),
{
    let mut v: Vec<u8> = Vec::new();
    v.push(102);
    v.push(101);
    v.push(97);
    v.push(116);
    v.push(117);
    v.push(114);
    v.push(101);
    v.push(115);
    proof {
        assert(v@ =~= l_features());
    }
    v
}

/// The bytes of the `expires_at` field name.
fn bl_expires_at() -> (r: Vec<u8>)
    ensures
        r@ == l_expires_at(),
{
    let mut v: Vec<u8> = Vec::new();
    v.push(101);
    v.push(120);
    v.push(112);
    v.push(105);
    v.push(114);
    v.push(101);
    v.push(115);
    v.push(95);
    v.push(97);
    v.push(116);
    proof {
        assert(v@ =~= l_expires_at());
    }
    v
}

/// The bytes of the `metadata` field name.
fn bl_metadata() -> (r: Vec<u8>)
    ensures
        r@ == l_metadata(),
{
    let mut v: Vec<u8> = Vec::new();
    v.push(109);
    v.push(101);
    v.push(116);
    v.push(97);
    v.push(100);
    v.push(97);
    v.push(116);
    v.push(97);
    proof {
        assert(v@ =~= l_metadata());
    }
    v
}

/// Reads a license record from a parsed document, as `license_of_doc`
/// describes.
fn license_from_json(v: &Json) -> (r: Option<LicenseInfo>)
    ensures
        match r {
            Some(li) => license_of_doc(v@) == Some(li@),
            None => license_of_doc(v@) is None,
        },
{
    let fields = match v {
        Json::Obj(fields) => fields,
        _ => {
            return None;
        },
    };
    let lid_b = match obj_get(fields, bl_license_id().as_slice()) {
        Some(Json::Str(b)) => b,
        _ => {
            return None;
        },
    };
    let cid_b = match obj_get(fields, bl_customer_id().as_slice()) {
        Some(Json::Str(b)) => b,
        _ => {
            return None;
        },
    };
    let feats = match obj_get(fields, bl_features().as_slice()) {
        Some(Json::Arr(items)) => items,
        _ => {
            return None;
        },
    };
    let exp_b = match obj_get(fields, bl_expires_at().as_slice()) {
        Some(Json::Str(b)) => b,
        _ => {
            return None;
        },
    };
    let meta = match obj_get(fields, bl_metadata().as_slice()) {
        Some(Json::Obj(mf)) => mf,
        _ => {
            return None;
        },
    };
    let license_id = match string_from_utf8(crate::persist::str_bytes_copy(lid_b)) {
        Some(s) => s,
        None => {
            return None;
        },
    };
    let customer_id = match string_from_utf8(crate::persist::str_bytes_copy(cid_b)) {
        Some(s) => s,
        None => {
            return None;
        },
    };
    let features = match strings_from_arr(feats) {
        Some(list) => list,
        None => {
            return None;
        },
    };
    let expires_at = match crate::persist::parse_rfc3339(exp_b.as_slice()) {
        Some(t) => t,
        None => {
            return None;
        },
    };
    let metadata = match pairs_from_obj(meta) {
        Some(list) => list,
        None => {
            return None;
        },
    };
    let li = LicenseInfo { license_id, customer_id, features, expires_at, metadata };
    proof {
        assert(strings_view(li.features@) =~= li@.features);
        assert(string_pairs_view(li.metadata@) =~= li@.metadata);
    }
    Some(li)
}

impl LicenseValidator {
    /// Validates one license token against the store at `now`. Succeeds on
    /// exactly the tokens `token_accepted` accepts (after strict base64
    /// decoding), returning the license's expiry, features and metadata;
    /// every failure - undecodable token, unknown or unreadable version,
    /// failed decryption, malformed license, expiry - is the one uniform
    /// `LicenseValidationFailed` kind.
    pub fn validate(
        &self,
        manager: &SecretManager,
        license_token: &[u8],
        now: i64,
    ) -> (r: AgentResult<ValidationResult>)
        requires
            manager.wf(),
        ensures
            r matches Err(e) ==> e is LicenseValidationFailed,
            match crate::crypto::b64_val(license_token@) {
                Some(raw) => match token_accepted(manager, raw, now) {
                    Some(lv) => (r matches Ok(res) && res.valid && res.error is None
                        && res.expires_at == Some(lv.expires_at) && strings_view(res.features@)
                        == lv.features && string_pairs_view(res.metadata@) == lv.metadata),
                    None => r is Err,
                },
                None => r is Err,
            },
    {
        let raw = match b64_decode(license_token) {
            Some(v) => v,
            None => {
                return Err(
                    AgentError::LicenseValidationFailed("Invalid base64".to_owned()),
                );
            },
        };
        if raw.len() < 36 {
            return Err(AgentError::LicenseValidationFailed("Token too short".to_owned()));
        }
        let version: u64 = ((raw[0] as u64) << 56) | ((raw[1] as u64) << 48) | ((raw[2]
            as u64) << 40) | ((raw[3] as u64) << 32) | ((raw[4] as u64) << 24) | ((raw[5]
            as u64) << 16) | ((raw[6] as u64) << 8) | (raw[7] as u64);
        proof {
            assert(version == token_version(raw@));
        }
        let sec = match self.get_secret_for_version(manager, version, now) {
            Some(s) => s,
            None => {
                return Err(
                    AgentError::LicenseValidationFailed("Decryption failed".to_owned()),
                );
            },
        };
        if sec.data.len() != 32 {
            return Err(AgentError::LicenseValidationFailed("Decryption failed".to_owned()));
        }
        let iv: &[u8] = &raw.as_slice()[8..20];
        let ct: &[u8] = &raw.as_slice()[20..raw.len()];
        proof {
            assert(iv@ =~= raw@.subrange(8, 20));
            assert(ct@ =~= raw@.skip(20));
        }
        let mut key_bytes = sec.data;
        let pt_opt = crate::tpm::aead_decrypt(key_bytes.as_slice(), iv, ct);
        crate::tpm::wipe(&mut key_bytes);
        let pt = match pt_opt {
            Some(p) => p,
            None => {
                return Err(
                    AgentError::LicenseValidationFailed("Decryption failed".to_owned()),
                );
            },
        };
        let doc = match crate::json::parse_json(pt.as_slice()) {
            Some(d) => d,
            None => {
                return Err(
                    AgentError::LicenseValidationFailed(
                        "Failed to parse license JSON".to_owned(),
                    ),
                );
            },
        };
        let li = match license_from_json(&doc) {
            Some(l) => l,
            None => {
                return Err(
                    AgentError::LicenseValidationFailed(
                        "Failed to parse license JSON".to_owned(),
                    ),
                );
            },
        };
        if now > li.expires_at {
            return Err(AgentError::LicenseValidationFailed("License expired".to_owned()));
        }
        let expires_at = li.expires_at;
        let result = ValidationResult {
            valid: true,
            expires_at: Some(expires_at),
            features: li.features,
            metadata: li.metadata,
            error: None,
        };
        proof {
            assert(strings_view(result.features@) =~= strings_view(li.features@));
            assert(string_pairs_view(result.metadata@) =~= string_pairs_view(li.metadata@));
        }
        Ok(result)
    }

    /// Validation counters for status reporting. Per-call counting is kept
    /// by the engine; the validator itself holds no totals.
    pub fn get_stats(&self, now: i64) -> (r: crate::types::LicenseStatus)
    {
        crate::types::LicenseStatus {
            last_validation: Some(now),
            total_validations: 0,
            successful_validations: 0,
            failed_validations: 0,
            last_error: None,
        }
    }
}

} // verus!
