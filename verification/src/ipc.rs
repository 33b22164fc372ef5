//! The IPC surface: framing, peer gating, and the validate request and
//! response payloads.
//!
//! Frames are a 4-byte big-endian length followed by that many bytes of
//! JSON, at most 1 MiB. The socket itself, and reading peer credentials,
//! are the runtime's part; it asks `peer_allowed` before reading a frame
//! and drops unauthorized peers without a response.

use vstd::prelude::*;
use vstd::utf8::encode_utf8;
use crate::json::{spec_render, Json, JsonNum, JsonV};
use crate::license::obj_lookup;
use crate::types::{AgentError, AgentResult, ValidateLicenseRequest, ValidationResult};

verus! {

/// The largest accepted frame payload: 1 MiB.
pub const MAX_MESSAGE_BYTES: usize = 1048576;

/// Big-endian bytes of a frame length.
pub open spec fn be32_of(n: u32) -> Seq<u8> {
    seq![(n >> 24) as u8, ((n >> 16) & 0xff) as u8, ((n >> 8) & 0xff) as u8, (n & 0xff) as u8]
}

/// Reads a frame length from its 4 header bytes.
pub fn read_frame_len(header: &[u8]) -> (r: u32)
    requires
        header@.len() == 4,
    ensures
        be32_of(r) == header@,
{
    let r: u32 = ((header[0] as u32) << 24) | ((header[1] as u32) << 16) | ((header[2] as u32)
        << 8) | (header[3] as u32);
    proof {
        let b0 = header@[0];
        let b1 = header@[1];
        let b2 = header@[2];
        let b3 = header@[3];
        assert((r >> 24) as u8 == b0 && ((r >> 16) & 0xff) as u8 == b1 && ((r >> 8) & 0xff) as u8
            == b2 && (r & 0xff) as u8 == b3) by (bit_vector)
            requires
                r == ((b0 as u32) << 24) | ((b1 as u32) << 16) | ((b2 as u32) << 8) | (
                b3 as u32),
        ;
        assert(be32_of(r) =~= header@);
    }
    r
}

/// Frames a payload: the length header followed by the bytes. Refuses
/// payloads over the message limit.
pub fn encode_frame(payload: &[u8]) -> (r: Option<Vec<u8>>)
    ensures
        payload@.len() > MAX_MESSAGE_BYTES ==> r is None,
        r matches Some(f) ==> f@ == be32_of(payload@.len() as u32) + payload@,
{
    if payload.len() > MAX_MESSAGE_BYTES {
        return None;
    }
    let n: u32 = payload.len() as u32;
    let mut out: Vec<u8> = Vec::new();
    out.push((n >> 24) as u8);
    out.push(((n >> 16) & 0xff) as u8);
    out.push(((n >> 8) & 0xff) as u8);
    out.push((n & 0xff) as u8);
    let mut body = crate::persist::slice_to_vec_pub(payload);
    out.append(&mut body);
    proof {
        assert(out@ =~= be32_of(payload@.len() as u32) + payload@);
    }
    Some(out)
}

/// The IPC server's gating state.
pub struct IpcServer {
    allowed_uids: Vec<u32>,
}

impl IpcServer {
    pub closed spec fn spec_allowed(&self) -> Seq<u32> {
        self.allowed_uids@
    }

    pub fn new(allowed_uids: Vec<u32>) -> (r: IpcServer)
        ensures
            r.spec_allowed() == allowed_uids@,
    {
        IpcServer { allowed_uids }
    }

    /// Whether a peer UID may talk to the agent: always when the allow-list
    /// is empty, else exactly the listed UIDs.
    pub fn peer_allowed(&self, uid: u32) -> (r: bool)
        ensures
            r == (self.spec_allowed().len() == 0 || exists|i: int|
                0 <= i < self.spec_allowed().len() && self.spec_allowed()[i] == uid),
    {
        if self.allowed_uids.len() == 0 {
            return true;
        }
        let mut i: usize = 0;
        while i < self.allowed_uids.len()
            invariant
                i <= self.spec_allowed().len(),
                forall|k: int| 0 <= k < i ==> self.spec_allowed()[k] != uid,
            decreases self.spec_allowed().len() - i,
        {
            if self.allowed_uids[i] == uid {
                return true;
            }
            i += 1;
        }
        false
    }
}

/// Field name of the license token in a validate request.
pub open spec fn l_license_token() -> Seq<u8> {
    seq![108u8, 105u8, 99u8, 101u8, 110u8, 115u8, 101u8, 95u8, 116u8, 111u8, 107u8, 101u8,
        110u8]
}

/// Field name of the request nonce.
pub open spec fn l_nonce() -> Seq<u8> {
    seq![110u8, 111u8, 110u8, 99u8, 101u8]
}

/// Byte values of an array of small numbers.
pub open spec fn bytes_of_nums(items: Seq<JsonV>, i: int) -> Option<Seq<u8>>
    decreases items.len() - i,
{
    if i < 0 || i > items.len() {
        None
    } else if i == items.len() {
        Some(Seq::empty())
    } else {
        match items[i] {
            JsonV::Num(n) => {
                if !n.neg && n.mag <= 255 {
                    match bytes_of_nums(items, i + 1) {
                        Some(rest) => Some(seq![n.mag as u8] + rest),
                        None => None,
                    }
                } else {
                    None
                }
            },
            _ => None,
        }
    }
}

/// Reads a byte array node.
fn bytes_from_arr(items: &Vec<Json>) -> (r: Option<Vec<u8>>)
    ensures
        match r {
            Some(b) => bytes_of_nums(crate::json::view_items(items@, 0), 0) == Some(b@),
            None => bytes_of_nums(crate::json::view_items(items@, 0), 0) is None,
        },
{
    let ghost vi = crate::json::view_items(items@, 0);
    proof {
        crate::json::lemma_view_items(items@, 0);
    }
    let mut out: Vec<u8> = Vec::new();
    let mut k: usize = 0;
    while k < items.len()
        invariant
            k <= items@.len(),
            vi == crate::json::view_items(items@, 0),
            vi.len() == items@.len(),
            forall|j: int|
                0 <= j < items@.len() ==> #[trigger] vi[j] == crate::json::json_view(items@[j]),
            bytes_of_nums(vi, k as int) matches Some(tail) ==> bytes_of_nums(vi, 0) == Some(
                out@ + tail,
            ),
            bytes_of_nums(vi, k as int) is None ==> bytes_of_nums(vi, 0) is None,
        decreases items@.len() - k,
    {
        let ghost pre_out = out@;
        match &items[k] {
            Json::Num(n) => {
                if n.neg || n.mag > 255 {
                    proof {
                        assert(bytes_of_nums(vi, k as int) is None);
                    }
                    return None;
                }
                let b: u8 = n.mag as u8;
                out.push(b);
                proof {
                    if bytes_of_nums(vi, k + 1) is Some {
                        let tail = bytes_of_nums(vi, k + 1)->Some_0;
                        assert(bytes_of_nums(vi, k as int) == Some(seq![b] + tail));
                        assert(pre_out + (seq![b] + tail) =~= out@ + tail);
                    } else {
                        assert(bytes_of_nums(vi, k as int) is None);
                    }
                }
                k += 1;
            },
            _ => {
                proof {
                    assert(bytes_of_nums(vi, k as int) is None);
                }
                return None;
            },
        }
    }
    proof {
        assert(bytes_of_nums(vi, vi.len() as int) == Some(Seq::<u8>::empty()));
        assert(out@ + Seq::<u8>::empty() =~= out@);
    }
    Some(out)
}

/// What a validate request document holds: the token bytes and the 16-byte
/// nonce, both as arrays of numbers.
pub open spec fn request_of_doc(v: JsonV) -> Option<(Seq<u8>, Seq<u8>)> {
    match v {
        JsonV::Obj(fields) => {
            match (obj_lookup(fields, l_license_token()), obj_lookup(fields, l_nonce())) {
                (Some(JsonV::Arr(token)), Some(JsonV::Arr(nonce))) => {
                    match (bytes_of_nums(token, 0), bytes_of_nums(nonce, 0)) {
                        (Some(t), Some(n)) => if n.len() == 16 {
                            Some((t, n))
                        } else {
                            None
                        },
                        _ => None,
                    }
                },
                _ => None,
            }
        },
        _ => None,
    }
}

/// Reads a validate request from its payload bytes, exactly as parsing
/// then `request_of_doc` describe.
pub fn parse_validate_request(data: &[u8]) -> (r: AgentResult<ValidateLicenseRequest>)
    ensures
        match r {
            Ok(req) => crate::json::spec_parse(data@) matches Some(doc) && request_of_doc(doc)
                == Some((req.license_token@, req.nonce@)),
            Err(e) => e is IpcError && (match crate::json::spec_parse(data@) {
                None => true,
                Some(doc) => request_of_doc(doc) is None,
            }),
        },
{
    let doc = match crate::json::parse_json(data) {
        Some(d) => d,
        None => {
            return Err(AgentError::IpcError("Failed to parse request".to_owned()));
        },
    };
    let fields = match &doc {
        Json::Obj(fields) => fields,
        _ => {
            return Err(AgentError::IpcError("Failed to parse request".to_owned()));
        },
    };
    let token_items = match crate::license::obj_get(fields, bl_license_token().as_slice()) {
        Some(Json::Arr(items)) => items,
        _ => {
            return Err(AgentError::IpcError("Failed to parse request".to_owned()));
        },
    };
    let nonce_items = match crate::license::obj_get(fields, bl_nonce().as_slice()) {
        Some(Json::Arr(items)) => items,
        _ => {
            return Err(AgentError::IpcError("Failed to parse request".to_owned()));
        },
    };
    let license_token = match bytes_from_arr(token_items) {
        Some(b) => b,
        None => {
            return Err(AgentError::IpcError("Failed to parse request".to_owned()));
        },
    };
    let nonce = match bytes_from_arr(nonce_items) {
        Some(b) => b,
        None => {
            return Err(AgentError::IpcError("Failed to parse request".to_owned()));
        },
    };
    if nonce.len() != 16 {
        return Err(AgentError::IpcError("Failed to parse request".to_owned()));
    }
    Ok(ValidateLicenseRequest { license_token, nonce })
}

fn bl_license_token() -> (r: Vec<u8>)
    ensures
        r@ == l_license_token(),
{
    let mut v: Vec<u8> = Vec::new();
    v.push(108);
    v.push(105);
    v.push(99);
    v.push(101);
    v.push(110);
    v.push(115);
    v.push(101);
    v.push(95);
    v.push(116);
    v.push(111);
    v.push(107);
    v.push(101);
    v.push(110);
    proof {
        assert(v@ =~= l_license_token());
    }
    v
}

fn bl_nonce() -> (r: Vec<u8>)
    ensures
        r@ == l_nonce(),
{
    let mut v: Vec<u8> = Vec::new();
    v.push(110);
    v.push(111);
    v.push(110);
    v.push(99);
    v.push(101);
    proof {
        assert(v@ =~= l_nonce());
    }
    v
}

/// Field names of the response payload.
pub open spec fn l_result() -> Seq<u8> {
    seq![114u8, 101u8, 115u8, 117u8, 108u8, 116u8]
}

pub open spec fn l_valid() -> Seq<u8> {
    seq![118u8, 97u8, 108u8, 105u8, 100u8]
}

pub open spec fn l_error() -> Seq<u8> {
    seq![101u8, 114u8, 114u8, 111u8, 114u8]
}

/// The feature strings as document nodes.
pub open spec fn features_doc(features: Seq<String>, i: int) -> Seq<JsonV>
    decreases features.len() - i,
{
    if i < 0 || i >= features.len() {
        Seq::empty()
    } else {
        seq![JsonV::Str(encode_utf8(features[i]@))] + features_doc(features, i + 1)
    }
}

/// The metadata pairs as document members.
pub open spec fn meta_pairs_doc(pairs: Seq<(String, String)>, i: int) -> Seq<(Seq<u8>, JsonV)>
    decreases pairs.len() - i,
{
    if i < 0 || i >= pairs.len() {
        Seq::empty()
    } else {
        seq![(encode_utf8(pairs[i].0@), JsonV::Str(encode_utf8(pairs[i].1@)))] + meta_pairs_doc(
            pairs,
            i + 1,
        )
    }
}

/// The response payload document:
/// `{"result":{"valid":b,"expires_at":...,"features":[...],"metadata":{...},"error":...}}`
/// with the expiry as an RFC 3339 string (or `null` when absent or not
/// representable) and the error text or `null`.
pub open spec fn response_doc(result: ValidationResult) -> JsonV {
    JsonV::Obj(
        seq![
            (
                l_result(),
                JsonV::Obj(
                    seq![
                        (l_valid(), JsonV::Bool(result.valid)),
                        (
                            crate::license::l_expires_at(),
                            match result.expires_at {
                                Some(t) => if crate::types::ts_ok(t) {
                                    JsonV::Str(crate::persist::rfc3339_of(t))
                                } else {
                                    JsonV::Null
                                },
                                None => JsonV::Null,
                            },
                        ),
                        (
                            crate::license::l_features(),
                            JsonV::Arr(features_doc(result.features@, 0)),
                        ),
                        (
                            crate::license::l_metadata(),
                            JsonV::Obj(meta_pairs_doc(result.metadata@, 0)),
                        ),
                        (
                            l_error(),
                            match result.error {
                                Some(e) => JsonV::Str(encode_utf8(e@)),
                                None => JsonV::Null,
                            },
                        ),
                    ],
                ),
            ),
        ],
    )
}

/// Appending one feature extends its document list by one.
proof fn lemma_features_doc_snoc(features: Seq<String>, x: String, i: int)
    requires
        0 <= i <= features.len(),
    ensures
        features_doc(features.push(x), i) == features_doc(features, i).push(
            JsonV::Str(encode_utf8(x@)),
        ),
    decreases features.len() - i,
{
    let p = features.push(x);
    if i == features.len() {
        assert(p[i] == x);
        assert(features_doc(p, i + 1) =~= Seq::<JsonV>::empty());
        assert(features_doc(p, i) =~= features_doc(features, i).push(
            JsonV::Str(encode_utf8(x@)),
        ));
    } else {
        assert(p[i] == features[i]);
        lemma_features_doc_snoc(features, x, i + 1);
        assert(features_doc(p, i) =~= features_doc(features, i).push(
            JsonV::Str(encode_utf8(x@)),
        ));
    }
}

/// Appending one pair extends its document list by one.
proof fn lemma_meta_pairs_doc_snoc(pairs: Seq<(String, String)>, x: (String, String), i: int)
    requires
        0 <= i <= pairs.len(),
    ensures
        meta_pairs_doc(pairs.push(x), i) == meta_pairs_doc(pairs, i).push(
            (encode_utf8(x.0@), JsonV::Str(encode_utf8(x.1@))),
        ),
    decreases pairs.len() - i,
{
    let p = pairs.push(x);
    if i == pairs.len() {
        assert(p[i] == x);
        assert(meta_pairs_doc(p, i + 1) =~= Seq::<(Seq<u8>, JsonV)>::empty());
        assert(meta_pairs_doc(p, i) =~= meta_pairs_doc(pairs, i).push(
            (encode_utf8(x.0@), JsonV::Str(encode_utf8(x.1@))),
        ));
    } else {
        assert(p[i] == pairs[i]);
        lemma_meta_pairs_doc_snoc(pairs, x, i + 1);
        assert(meta_pairs_doc(p, i) =~= meta_pairs_doc(pairs, i).push(
            (encode_utf8(x.0@), JsonV::Str(encode_utf8(x.1@))),
        ));
    }
}

/// Renders a validation response payload, exactly `response_doc` of the
/// result. Validation-level failures travel as `valid:false` with an error
/// text, never as a transport failure.
#[verifier::rlimit(100)]
pub fn render_validation_response(result: ValidationResult) -> (r: Vec<u8>)
    ensures
        r@ == spec_render(response_doc(result)),
{
    let ValidationResult { valid, expires_at, features, metadata, error } = result;
    let mut inner: Vec<(Vec<u8>, Json)> = Vec::new();
    let mut n_valid: Vec<u8> = Vec::new();
    n_valid.push(118);
    n_valid.push(97);
    n_valid.push(108);
    n_valid.push(105);
    n_valid.push(100);
    inner.push((n_valid, Json::Bool(valid)));
    let mut n_exp: Vec<u8> = Vec::new();
    n_exp.push(101);
    n_exp.push(120);
    n_exp.push(112);
    n_exp.push(105);
    n_exp.push(114);
    n_exp.push(101);
    n_exp.push(115);
    n_exp.push(95);
    n_exp.push(97);
    n_exp.push(116);
    let exp_node = match expires_at {
        Some(t) => {
            if crate::types::ts_ok_exec(t) {
                Json::Str(crate::persist::format_rfc3339(t))
            } else {
                Json::Null
            }
        },
        None => Json::Null,
    };
    inner.push((n_exp, exp_node));
    let mut n_feats: Vec<u8> = Vec::new();
    n_feats.push(102);
    n_feats.push(101);
    n_feats.push(97);
    n_feats.push(116);
    n_feats.push(117);
    n_feats.push(114);
    n_feats.push(101);
    n_feats.push(115);
    let mut feat_items: Vec<Json> = Vec::new();
    let mut i: usize = 0;
    while i < features.len()
        invariant
            i <= features@.len(),
            crate::json::view_items(feat_items@, 0) == features_doc(
                features@.subrange(0, i as int),
                0,
            ),
        decreases features@.len() - i,
    {
        let ghost prefix = features@.subrange(0, i as int);
        let ghost pre_items = feat_items@;
        feat_items.push(Json::Str(crate::persist::str_to_bytes(features[i].as_str())));
        proof {
            lemma_features_doc_snoc(prefix, features@[i as int], 0);
            crate::json::lemma_view_items(feat_items@, 0);
            crate::json::lemma_view_items(pre_items, 0);
            assert(feat_items@ == pre_items.push(feat_items@[feat_items@.len() - 1]));
            assert(crate::json::view_items(feat_items@, 0) =~= crate::json::view_items(
                pre_items,
                0,
            ).push(JsonV::Str(encode_utf8(features@[i as int]@))));
            assert(features@.subrange(0, i + 1) =~= prefix.push(features@[i as int]));
        }
        i += 1;
    }
    proof {
        assert(features@.subrange(0, features@.len() as int) =~= features@);
    }
    inner.push((n_feats, Json::Arr(feat_items)));
    let mut n_meta: Vec<u8> = Vec::new();
    n_meta.push(109);
    n_meta.push(101);
    n_meta.push(116);
    n_meta.push(97);
    n_meta.push(100);
    n_meta.push(97);
    n_meta.push(116);
    n_meta.push(97);
    let mut meta_fields: Vec<(Vec<u8>, Json)> = Vec::new();
    let mut j: usize = 0;
    while j < metadata.len()
        invariant
            j <= metadata@.len(),
            crate::json::view_members(meta_fields@, 0) == meta_pairs_doc(
                metadata@.subrange(0, j as int),
                0,
            ),
        decreases metadata@.len() - j,
    {
        let ghost prefix = metadata@.subrange(0, j as int);
        let ghost pre_fields = meta_fields@;
        meta_fields.push(
            (
                crate::persist::str_to_bytes(metadata[j].0.as_str()),
                Json::Str(crate::persist::str_to_bytes(metadata[j].1.as_str())),
            ),
        );
        proof {
            lemma_meta_pairs_doc_snoc(prefix, metadata@[j as int], 0);
            crate::json::lemma_view_members(meta_fields@, 0);
            crate::json::lemma_view_members(pre_fields, 0);
            assert(meta_fields@ == pre_fields.push(meta_fields@[meta_fields@.len() - 1]));
            assert(crate::json::view_members(meta_fields@, 0) =~= crate::json::view_members(
                pre_fields,
                0,
            ).push(
                (
                    encode_utf8(metadata@[j as int].0@),
                    JsonV::Str(encode_utf8(metadata@[j as int].1@)),
                ),
            ));
            assert(metadata@.subrange(0, j + 1) =~= prefix.push(metadata@[j as int]));
        }
        j += 1;
    }
    proof {
        assert(metadata@.subrange(0, metadata@.len() as int) =~= metadata@);
    }
    inner.push((n_meta, Json::Obj(meta_fields)));
    let mut n_err: Vec<u8> = Vec::new();
    n_err.push(101);
    n_err.push(114);
    n_err.push(114);
    n_err.push(111);
    n_err.push(114);
    let err_node = match error {
        Some(text) => Json::Str(crate::persist::str_to_bytes(text.as_str())),
        None => Json::Null,
    };
    inner.push((n_err, err_node));
    let inner_doc = Json::Obj(inner);
    proof {
        let fs = inner_doc->Obj_0@;
        crate::json::lemma_view_members(fs, 0);
        assert(crate::json::view_members(fs, 0) =~~= response_doc(
            result,
        )->Obj_0[0].1->Obj_0);
    }
    let mut top: Vec<(Vec<u8>, Json)> = Vec::new();
    let mut n_result: Vec<u8> = Vec::new();
    n_result.push(114);
    n_result.push(101);
    n_result.push(115);
    n_result.push(117);
    n_result.push(108);
    n_result.push(116);
    top.push((n_result, inner_doc));
    let doc = Json::Obj(top);
    proof {
        let fs = doc->Obj_0@;
        crate::json::lemma_view_members(fs, 0);
        assert(crate::json::view_members(fs, 0) =~~= response_doc(result)->Obj_0);
        assert(doc@ == response_doc(result));
    }
    crate::json::render(&doc)
}

} // verus!
