//! The audit log: an append-only sequence of structured events.
//!
//! The logger holds the events in memory with a verified append; the
//! runtime drains them and writes one rendered JSON line per event to the
//! audit file, flushing each line.

use vstd::prelude::*;
use crate::json::{spec_render, view_members, Json, JsonNum, JsonV};

verus! {

/// Severity of an audit event.
#[derive(Debug, Clone, Copy, PartialEq, Eq, Structural)]
pub enum AuditLevel {
    Info,
    Warning,
    Error,
    Critical,
}

/// Lowercase level names as written to the log.
pub open spec fn level_label(l: AuditLevel) -> Seq<u8> {
    match l {
        AuditLevel::Info => seq![105u8, 110u8, 102u8, 111u8],
        AuditLevel::Warning => seq![119u8, 97u8, 114u8, 110u8, 105u8, 110u8, 103u8],
        AuditLevel::Error => seq![101u8, 114u8, 114u8, 111u8, 114u8],
        AuditLevel::Critical => seq![99u8, 114u8, 105u8, 116u8, 105u8, 99u8, 97u8, 108u8],
    }
}

/// One audit event: instant, name, severity and structured payload.
pub struct AuditEvent {
    pub timestamp: i64,
    pub event: String,
    pub level: AuditLevel,
    pub data: Json,
}

/// The line document of one event:
/// `{"timestamp":n,"event":"...","level":"...","data":...}`.
pub open spec fn line_doc(timestamp: i64, event: Seq<u8>, level: AuditLevel, data: JsonV) -> JsonV {
    JsonV::Obj(
        seq![
            (
                seq![116u8, 105u8, 109u8, 101u8, 115u8, 116u8, 97u8, 109u8, 112u8],
                JsonV::Num(
                    JsonNum {
                        neg: timestamp < 0,
                        mag: (if timestamp < 0 {
                            (-(timestamp as int)) as u64
                        } else {
                            timestamp as u64
                        }),
                    },
                ),
            ),
            (seq![101u8, 118u8, 101u8, 110u8, 116u8], JsonV::Str(event)),
            (seq![108u8, 101u8, 118u8, 101u8, 108u8], JsonV::Str(level_label(level))),
            (seq![100u8, 97u8, 116u8, 97u8], data),
        ],
    )
}

/// The in-memory audit sink.
pub struct AuditLogger {
    events: Vec<AuditEvent>,
}

impl AuditLogger {
    pub closed spec fn log_len(&self) -> int {
        self.events@.len() as int
    }

    /// Name of the event at position `i`.
    pub closed spec fn event_name(&self, i: int) -> Seq<char> {
        self.events@[i].event@
    }

    pub closed spec fn event_level(&self, i: int) -> AuditLevel {
        self.events@[i].level
    }

    pub closed spec fn event_time(&self, i: int) -> i64 {
        self.events@[i].timestamp
    }

    /// An empty log.
    pub fn new() -> (r: AuditLogger)
        ensures
            r.log_len() == 0,
    {
        AuditLogger { events: Vec::new() }
    }

    /// Appends one event; earlier entries are untouched.
    pub fn log(&mut self, now: i64, event: &str, level: AuditLevel, data: Json)
        ensures
            final(self).log_len() == old(self).log_len() + 1,
            final(self).event_name(old(self).log_len()) == event@,
            final(self).event_level(old(self).log_len()) == level,
            final(self).event_time(old(self).log_len()) == now,
            forall|i: int|
                0 <= i < old(self).log_len() ==> #[trigger] final(self).event_name(i) == old(
                    self,
                ).event_name(i) && final(self).event_level(i) == old(self).event_level(i)
                    && final(self).event_time(i) == old(self).event_time(i),
    {
        self.events.push(
            AuditEvent { timestamp: now, event: event.to_owned(), level, data },
        );
    }

    pub fn info(&mut self, now: i64, event: &str, data: Json)
        ensures
            final(self).log_len() == old(self).log_len() + 1,
            final(self).event_name(old(self).log_len()) == event@,
            final(self).event_level(old(self).log_len()) == AuditLevel::Info,
    {
        self.log(now, event, AuditLevel::Info, data);
    }

    pub fn warning(&mut self, now: i64, event: &str, data: Json)
        ensures
            final(self).log_len() == old(self).log_len() + 1,
            final(self).event_name(old(self).log_len()) == event@,
            final(self).event_level(old(self).log_len()) == AuditLevel::Warning,
    {
        self.log(now, event, AuditLevel::Warning, data);
    }

    pub fn error(&mut self, now: i64, event: &str, data: Json)
        ensures
            final(self).log_len() == old(self).log_len() + 1,
            final(self).event_name(old(self).log_len()) == event@,
            final(self).event_level(old(self).log_len()) == AuditLevel::Error,
    {
        self.log(now, event, AuditLevel::Error, data);
    }

    pub fn critical(&mut self, now: i64, event: &str, data: Json)
        ensures
            final(self).log_len() == old(self).log_len() + 1,
            final(self).event_name(old(self).log_len()) == event@,
            final(self).event_level(old(self).log_len()) == AuditLevel::Critical,
    {
        self.log(now, event, AuditLevel::Critical, data);
    }

    /// Records a completed rotation with old and new version and elapsed
    /// milliseconds.
    pub fn rotation_succeeded(&mut self, now: i64, old_version: u64, new_version: u64, duration_ms: u64)
        ensures
            final(self).log_len() == old(self).log_len() + 1,
            final(self).event_name(old(self).log_len()) == "rotation_succeeded"@,
            final(self).event_level(old(self).log_len()) == AuditLevel::Info,
    {
        let mut fields: Vec<(Vec<u8>, Json)> = Vec::new();
        fields.push((label_old_version(), Json::Num(JsonNum { neg: false, mag: old_version })));
        fields.push((label_new_version(), Json::Num(JsonNum { neg: false, mag: new_version })));
        fields.push((label_duration_ms(), Json::Num(JsonNum { neg: false, mag: duration_ms })));
        self.info(now, "rotation_succeeded", Json::Obj(fields));
    }

    /// Records a failed rotation with its reason and error text.
    pub fn rotation_failed(&mut self, now: i64, reason: &str, error: &str)
        ensures
            final(self).log_len() == old(self).log_len() + 1,
            final(self).event_name(old(self).log_len()) == "rotation_failed"@,
            final(self).event_level(old(self).log_len()) == AuditLevel::Error,
    {
        let mut fields: Vec<(Vec<u8>, Json)> = Vec::new();
        fields.push((label_reason(), Json::Str(crate::persist::str_to_bytes(reason))));
        fields.push((label_error(), Json::Str(crate::persist::str_to_bytes(error))));
        self.error(now, "rotation_failed", Json::Obj(fields));
    }

    /// Records a validated license.
    pub fn license_validated(&mut self, now: i64, license_id: &str, version: u64, result: &str)
        ensures
            final(self).log_len() == old(self).log_len() + 1,
            final(self).event_name(old(self).log_len()) == "license_validated"@,
            final(self).event_level(old(self).log_len()) == AuditLevel::Info,
    {
        let mut fields: Vec<(Vec<u8>, Json)> = Vec::new();
        fields.push((label_license_id(), Json::Str(crate::persist::str_to_bytes(license_id))));
        fields.push((label_secret_version(), Json::Num(JsonNum { neg: false, mag: version })));
        fields.push((label_result(), Json::Str(crate::persist::str_to_bytes(result))));
        self.info(now, "license_validated", Json::Obj(fields));
    }

    /// Records entry into degraded mode.
    pub fn degraded_mode_activated(&mut self, now: i64, reason: &str)
        ensures
            final(self).log_len() == old(self).log_len() + 1,
            final(self).event_name(old(self).log_len()) == "degraded_mode_activated"@,
            final(self).event_level(old(self).log_len()) == AuditLevel::Warning,
    {
        let mut fields: Vec<(Vec<u8>, Json)> = Vec::new();
        fields.push((label_reason(), Json::Str(crate::persist::str_to_bytes(reason))));
        self.warning(now, "degraded_mode_activated", Json::Obj(fields));
    }

    /// Records leaving degraded mode with the time spent in it.
    pub fn degraded_mode_deactivated(&mut self, now: i64, duration_seconds: i64)
        ensures
            final(self).log_len() == old(self).log_len() + 1,
            final(self).event_name(old(self).log_len()) == "degraded_mode_deactivated"@,
            final(self).event_level(old(self).log_len()) == AuditLevel::Info,
    {
        let mut fields: Vec<(Vec<u8>, Json)> = Vec::new();
        let neg = duration_seconds < 0;
        let mag: u64 = if duration_seconds < 0 {
            ((-(duration_seconds as i128)) as u64)
        } else {
            duration_seconds as u64
        };
        fields.push((label_duration_seconds(), Json::Num(JsonNum { neg: neg && mag > 0, mag })));
        self.info(now, "degraded_mode_deactivated", Json::Obj(fields));
    }

    /// Records an operator invalidation.
    pub fn secret_invalidated(&mut self, now: i64, version: u64, reason: Option<&str>)
        ensures
            final(self).log_len() == old(self).log_len() + 1,
            final(self).event_name(old(self).log_len()) == "secret_invalidated"@,
            final(self).event_level(old(self).log_len()) == AuditLevel::Warning,
    {
        let mut fields: Vec<(Vec<u8>, Json)> = Vec::new();
        fields.push((label_secret_version(), Json::Num(JsonNum { neg: false, mag: version })));
        match reason {
            Some(text) => {
                fields.push((label_reason(), Json::Str(crate::persist::str_to_bytes(text))));
            },
            None => {
                fields.push((label_reason(), Json::Null));
            },
        }
        self.warning(now, "secret_invalidated", Json::Obj(fields));
    }

    /// Hands the buffered events out for writing, leaving the log empty.
    pub fn take_events(&mut self) -> (r: Vec<AuditEvent>)
        ensures
            final(self).log_len() == 0,
            r@.len() == old(self).log_len(),
    {
        let mut out: Vec<AuditEvent> = Vec::new();
        core::mem::swap(&mut out, &mut self.events);
        proof {
            assert(final(self).log_len() == 0) by {
                assert(self.events@.len() == 0);
            }
        }
        out
    }
}

/// A number node for a signed timestamp.
fn json_num_i64(t: i64) -> (r: Json)
    ensures
        r@ == JsonV::Num(
            JsonNum {
                neg: t < 0,
                mag: (if t < 0 {
                    (-(t as int)) as u64
                } else {
                    t as u64
                }),
            },
        ),
{
    if t < 0 {
        let mag: u64 = (-(t as i128)) as u64;
        proof {
            assert(mag == (-(t as int)) as u64);
        }
        Json::Num(JsonNum { neg: true, mag })
    } else {
        Json::Num(JsonNum { neg: false, mag: t as u64 })
    }
}

/// The bytes of a level name.
fn level_bytes(l: AuditLevel) -> (r: Vec<u8>)
    ensures
        r@ == level_label(l),
{
    let mut v: Vec<u8> = Vec::new();
    match l {
        AuditLevel::Info => {
            v.push(105);
            v.push(110);
            v.push(102);
            v.push(111);
        },
        AuditLevel::Warning {  } => {
            v.push(119);
            v.push(97);
            v.push(114);
            v.push(110);
            v.push(105);
            v.push(110);
            v.push(103);
        },
        AuditLevel::Error => {
            v.push(101);
            v.push(114);
            v.push(114);
            v.push(111);
            v.push(114);
        },
        AuditLevel::Critical => {
            v.push(99);
            v.push(114);
            v.push(105);
            v.push(116);
            v.push(105);
            v.push(99);
            v.push(97);
            v.push(108);
        },
    }
    proof {
        assert(v@ =~= level_label(l));
    }
    v
}

fn label_timestamp() -> (r: Vec<u8>)
    ensures
        r@ == seq![116u8, 105u8, 109u8, 101u8, 115u8, 116u8, 97u8, 109u8, 112u8],
{
    let mut v: Vec<u8> = Vec::new();
    v.push(116);
    v.push(105);
    v.push(109);
    v.push(101);
    v.push(115);
    v.push(116);
    v.push(97);
    v.push(109);
    v.push(112);
    proof {
        assert(v@ =~= seq![116u8, 105u8, 109u8, 101u8, 115u8, 116u8, 97u8, 109u8, 112u8]);
    }
    v
}

fn label_event() -> (r: Vec<u8>)
    ensures
        r@ == seq![101u8, 118u8, 101u8, 110u8, 116u8],
{
    let mut v: Vec<u8> = Vec::new();
    v.push(101);
    v.push(118);
    v.push(101);
    v.push(110);
    v.push(116);
    proof {
        assert(v@ =~= seq![101u8, 118u8, 101u8, 110u8, 116u8]);
    }
    v
}

fn label_level() -> (r: Vec<u8>)
    ensures
        r@ == seq![108u8, 101u8, 118u8, 101u8, 108u8],
{
    let mut v: Vec<u8> = Vec::new();
    v.push(108);
    v.push(101);
    v.push(118);
    v.push(101);
    v.push(108);
    proof {
        assert(v@ =~= seq![108u8, 101u8, 118u8, 101u8, 108u8]);
    }
    v
}

fn label_data() -> (r: Vec<u8>)
    ensures
        r@ == seq![100u8, 97u8, 116u8, 97u8],
{
    let mut v: Vec<u8> = Vec::new();
    v.push(100);
    v.push(97);
    v.push(116);
    v.push(97);
    proof {
        assert(v@ =~= seq![100u8, 97u8, 116u8, 97u8]);
    }
    v
}

/// Renders one event as its JSON log line (without the trailing newline).
pub fn render_line(e: AuditEvent) -> (r: Vec<u8>)
    ensures
        r@ == spec_render(line_doc(e.timestamp, vstd::utf8::encode_utf8(e.event@), e.level, e.data@)),
{
    let AuditEvent { timestamp, event, level, data } = e;
    let mut fields: Vec<(Vec<u8>, Json)> = Vec::new();
    fields.push((label_timestamp(), json_num_i64(timestamp)));
    fields.push((label_event(), Json::Str(crate::persist::str_to_bytes(event.as_str()))));
    fields.push((label_level(), Json::Str(level_bytes(level))));
    fields.push((label_data(), data));
    let doc = Json::Obj(fields);
    proof {
        let fs = doc->Obj_0@;
        crate::json::lemma_view_members(fs, 0);
        assert(view_members(fs, 0) =~= line_doc(
            e.timestamp,
            vstd::utf8::encode_utf8(e.event@),
            e.level,
            e.data@,
        )->Obj_0);
    }
    crate::json::render(&doc)
}

/// The bytes of the `old_version` payload key.
fn label_old_version() -> (r: Vec<u8>)
{
    let mut v: Vec<u8> = Vec::new();
    v.push(111);
    v.push(108);
    v.push(100);
    v.push(95);
    v.push(118);
    v.push(101);
    v.push(114);
    v.push(115);
    v.push(105);
    v.push(111);
    v.push(110);
    v
}

/// The bytes of the `new_version` payload key.
fn label_new_version() -> (r: Vec<u8>)
{
    let mut v: Vec<u8> = Vec::new();
    v.push(110);
    v.push(101);
    v.push(119);
    v.push(95);
    v.push(118);
    v.push(101);
    v.push(114);
    v.push(115);
    v.push(105);
    v.push(111);
    v.push(110);
    v
}

/// The bytes of the `duration_ms` payload key.
fn label_duration_ms() -> (r: Vec<u8>)
{
    let mut v: Vec<u8> = Vec::new();
    v.push(100);
    v.push(117);
    v.push(114);
    v.push(97);
    v.push(116);
    v.push(105);
    v.push(111);
    v.push(110);
    v.push(95);
    v.push(109);
    v.push(115);
    v
}

/// The bytes of the `duration_seconds` payload key.
fn label_duration_seconds() -> (r: Vec<u8>)
{
    let mut v: Vec<u8> = Vec::new();
    v.push(100);
    v.push(117);
    v.push(114);
    v.push(97);
    v.push(116);
    v.push(105);
    v.push(111);
    v.push(110);
    v.push(95);
    v.push(115);
    v.push(101);
    v.push(99);
    v.push(111);
    v.push(110);
    v.push(100);
    v.push(115);
    v
}

/// The bytes of the `reason` payload key.
fn label_reason() -> (r: Vec<u8>)
{
    let mut v: Vec<u8> = Vec::new();
    v.push(114);
    v.push(101);
    v.push(97);
    v.push(115);
    v.push(111);
    v.push(110);
    v
}

/// The bytes of the `error` payload key.
fn label_error() -> (r: Vec<u8>)
{
    let mut v: Vec<u8> = Vec::new();
    v.push(101);
    v.push(114);
    v.push(114);
    v.push(111);
    v.push(114);
    v
}

/// The bytes of the `license_id` payload key.
fn label_license_id() -> (r: Vec<u8>)
{
    let mut v: Vec<u8> = Vec::new();
    v.push(108);
    v.push(105);
    v.push(99);
    v.push(101);
    v.push(110);
    v.push(115);
    v.push(101);
    v.push(95);
    v.push(105);
    v.push(100);
    v
}

/// The bytes of the `secret_version` payload key.
fn label_secret_version() -> (r: Vec<u8>)
{
    let mut v: Vec<u8> = Vec::new();
    v.push(115);
    v.push(101);
    v.push(99);
    v.push(114);
    v.push(101);
    v.push(116);
    v.push(95);
    v.push(118);
    v.push(101);
    v.push(114);
    v.push(115);
    v.push(105);
    v.push(111);
    v.push(110);
    v
}

/// The bytes of the `result` payload key.
fn label_result() -> (r: Vec<u8>)
{
    let mut v: Vec<u8> = Vec::new();
    v.push(114);
    v.push(101);
    v.push(115);
    v.push(117);
    v.push(108);
    v.push(116);
    v
}

} // verus!
