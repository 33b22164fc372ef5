//! A small JSON document model with a verified renderer and parser.
//!
//! The daemon's state file, audit lines, license plaintexts and IPC payloads
//! are all JSON. Both directions are verified against a single spec-level
//! grammar, so rendering a document and parsing the bytes back provably
//! returns the original document (`lemma_render_parse`).
//!
//! Strings are kept as raw byte sequences here; conversion to `String`
//! happens at the edges. Documents are rendered compactly (no whitespace);
//! the parser tolerates insignificant whitespace and the standard
//! single-character escapes. Numbers are integers with an optional sign;
//! `\u` escapes are not read.

use vstd::prelude::*;

verus! {

/// An integer JSON number: a magnitude with an optional sign.
/// Canonical form (see `wf_json`) forbids a negative zero.
#[derive(Debug, Clone, Copy)]
pub struct JsonNum {
    pub neg: bool,
    pub mag: u64,
}

/// A JSON document. Object fields keep their order; keys and string values
/// are raw bytes.
#[derive(Debug)]
pub enum Json {
    Null,
    Bool(bool),
    Num(JsonNum),
    Str(Vec<u8>),
    Arr(Vec<Json>),
    Obj(Vec<(Vec<u8>, Json)>),
}

/// Mathematical counterpart of `Json`, used by every contract.
pub enum JsonV {
    Null,
    Bool(bool),
    Num(JsonNum),
    Str(Seq<u8>),
    Arr(Seq<JsonV>),
    Obj(Seq<(Seq<u8>, JsonV)>),
}

/// Mathematical view of a document.
pub open spec fn json_view(v: Json) -> JsonV
    decreases v, 0int,
{
    match v {
        Json::Null => JsonV::Null,
        Json::Bool(b) => JsonV::Bool(b),
        Json::Num(n) => JsonV::Num(n),
        Json::Str(s) => JsonV::Str(s@),
        Json::Arr(items) => JsonV::Arr(view_items(items@, 0)),
        Json::Obj(fields) => JsonV::Obj(view_members(fields@, 0)),
    }
}

/// Views of the documents `items[i..]`.
pub open spec fn view_items(items: Seq<Json>, i: int) -> Seq<JsonV>
    decreases items, 1int, items.len() - i,
{
    if i < 0 || i >= items.len() {
        Seq::empty()
    } else {
        seq![json_view(items[i])] + view_items(items, i + 1)
    }
}

/// Views of the object members `fields[i..]`.
pub open spec fn view_members(fields: Seq<(Vec<u8>, Json)>, i: int) -> Seq<(Seq<u8>, JsonV)>
    decreases fields, 1int, fields.len() - i,
{
    if i < 0 || i >= fields.len() {
        Seq::empty()
    } else {
        seq![(fields[i].0@, json_view(fields[i].1))] + view_members(fields, i + 1)
    }
}

impl View for Json {
    type V = JsonV;

    open spec fn view(&self) -> JsonV {
        json_view(*self)
    }
}

/// Element-wise description of `view_items`.
pub proof fn lemma_view_items(items: Seq<Json>, i: int)
    requires
        0 <= i <= items.len(),
    ensures
        view_items(items, i).len() == items.len() - i,
        forall|k: int|
            0 <= k < items.len() - i ==> view_items(items, i)[k] == json_view(items[i + k]),
    decreases items.len() - i,
{
    if i < items.len() {
        lemma_view_items(items, i + 1);
    }
}

/// Element-wise description of `view_members`.
pub proof fn lemma_view_members(fields: Seq<(Vec<u8>, Json)>, i: int)
    requires
        0 <= i <= fields.len(),
    ensures
        view_members(fields, i).len() == fields.len() - i,
        forall|k: int|
            0 <= k < fields.len() - i ==> view_members(fields, i)[k] == (
            fields[i + k].0@,
            json_view(fields[i + k].1),
            ),
    decreases fields.len() - i,
{
    if i < fields.len() {
        lemma_view_members(fields, i + 1);
    }
}

/// Canonical documents: no negative zero anywhere.
pub open spec fn wf_json(v: JsonV) -> bool
    decreases v,
{
    match v {
        JsonV::Null => true,
        JsonV::Bool(_) => true,
        JsonV::Num(n) => n.neg ==> n.mag > 0,
        JsonV::Str(_) => true,
        JsonV::Arr(items) => forall|i: int| 0 <= i < items.len() ==> wf_json(#[trigger] items[i]),
        JsonV::Obj(fields) => forall|i: int|
            0 <= i < fields.len() ==> wf_json(#[trigger] fields[i].1),
    }
}

pub open spec fn is_digit(b: u8) -> bool {
    48 <= b <= 57
}

/// JSON insignificant whitespace.
pub open spec fn is_ws(b: u8) -> bool {
    b == 32 || b == 9 || b == 10 || b == 13
}

/// Drops leading whitespace.
pub open spec fn skip_ws(s: Seq<u8>) -> Seq<u8>
    decreases s.len(),
{
    if s.len() > 0 && is_ws(s[0]) {
        skip_ws(s.drop_first())
    } else {
        s
    }
}

/// Dropping whitespace never lengthens the input.
pub proof fn lemma_skip_ws_le(s: Seq<u8>)
    ensures
        skip_ws(s).len() <= s.len(),
    decreases s.len(),
{
    if s.len() > 0 && is_ws(s[0]) {
        lemma_skip_ws_le(s.drop_first());
    }
}

/// Decimal digits of `n`, most significant first.
pub open spec fn dec_of(n: nat) -> Seq<u8>
    decreases n,
{
    if n < 10 {
        seq![(48 + n) as u8]
    } else {
        dec_of(n / 10) + seq![(48 + n % 10) as u8]
    }
}

/// How one content byte appears inside a JSON string literal.
pub open spec fn esc(b: u8) -> Seq<u8> {
    if b == 34 || b == 92 {
        seq![92u8, b]
    } else {
        seq![b]
    }
}

/// String-literal body for raw content bytes.
pub open spec fn escape(s: Seq<u8>) -> Seq<u8>
    decreases s.len(),
{
    if s.len() == 0 {
        Seq::empty()
    } else {
        esc(s[0]) + escape(s.drop_first())
    }
}

/// Rendered bytes of a number.
pub open spec fn render_num(n: JsonNum) -> Seq<u8> {
    if n.neg {
        seq![45u8] + dec_of(n.mag as nat)
    } else {
        dec_of(n.mag as nat)
    }
}

/// Rendered bytes of a document: compact JSON, fields in order.
pub open spec fn spec_render(v: JsonV) -> Seq<u8>
    decreases v, 0int,
{
    match v {
        JsonV::Null => seq![110u8, 117u8, 108u8, 108u8],
        JsonV::Bool(b) => if b {
            seq![116u8, 114u8, 117u8, 101u8]
        } else {
            seq![102u8, 97u8, 108u8, 115u8, 101u8]
        },
        JsonV::Num(n) => render_num(n),
        JsonV::Str(s) => seq![34u8] + escape(s) + seq![34u8],
        JsonV::Arr(items) => seq![91u8] + spec_render_items(items, 0) + seq![93u8],
        JsonV::Obj(fields) => seq![123u8] + spec_render_fields(fields, 0) + seq![125u8],
    }
}

/// Rendered bytes of the array elements `items[i..]`, comma separated.
pub open spec fn spec_render_items(items: Seq<JsonV>, i: int) -> Seq<u8>
    decreases items, 1int, items.len() - i,
{
    if i < 0 || i >= items.len() {
        Seq::empty()
    } else if i == items.len() - 1 {
        spec_render(items[i])
    } else {
        spec_render(items[i]) + seq![44u8] + spec_render_items(items, i + 1)
    }
}

/// Rendered bytes of the object members `fields[i..]`, comma separated.
pub open spec fn spec_render_fields(fields: Seq<(Seq<u8>, JsonV)>, i: int) -> Seq<u8>
    decreases fields, 1int, fields.len() - i,
{
    if i < 0 || i >= fields.len() {
        Seq::empty()
    } else {
        let member = seq![34u8] + escape(fields[i].0) + seq![34u8, 58u8] + spec_render(
            fields[i].1,
        );
        if i == fields.len() - 1 {
            member
        } else {
            member + seq![44u8] + spec_render_fields(fields, i + 1)
        }
    }
}

/// `escape` distributes over concatenation.
pub proof fn lemma_escape_app(a: Seq<u8>, b: Seq<u8>)
    ensures
        escape(a + b) == escape(a) + escape(b),
    decreases a.len(),
{
    if a.len() == 0 {
        assert(a + b =~= b);
        assert(escape(a) + escape(b) =~= escape(b));
    } else {
        lemma_escape_app(a.drop_first(), b);
        assert((a + b).drop_first() =~= a.drop_first() + b);
        assert(escape(a + b) =~= esc(a[0]) + (escape(a.drop_first()) + escape(b)));
        assert(esc(a[0]) + escape(a.drop_first()) + escape(b) =~= esc(a[0]) + (escape(
            a.drop_first(),
        ) + escape(b)));
    }
}

/// Appends the decimal digits of `n` to `out`.
pub fn push_dec(out: &mut Vec<u8>, n: u64)
    ensures
        final(out)@ == old(out)@ + dec_of(n as nat),
    decreases n,
{
    if n < 10 {
        out.push(48 + n as u8);
        assert(final(out)@ =~= old(out)@ + dec_of(n as nat));
    } else {
        push_dec(out, n / 10);
        out.push(48 + (n % 10) as u8);
        assert(final(out)@ =~= old(out)@ + dec_of(n as nat));
    }
}

/// Appends the string-literal body for `content` to `out`.
pub fn push_escaped(out: &mut Vec<u8>, content: &[u8])
    ensures
        final(out)@ == old(out)@ + escape(content@),
{
    let mut i: usize = 0;
    while i < content.len()
        invariant
            i <= content@.len(),
            out@ == old(out)@ + escape(content@.subrange(0, i as int)),
        decreases content@.len() - i,
    {
        let c: u8 = content[i];
        if c == 34 || c == 92 {
            out.push(92);
        }
        out.push(c);
        proof {
            assert(content@.subrange(0, i + 1) =~= content@.subrange(0, i as int) + seq![
                content@[i as int],
            ]);
            lemma_escape_app(content@.subrange(0, i as int), seq![content@[i as int]]);
            assert(escape(seq![content@[i as int]]) =~= esc(content@[i as int])) by {
                reveal_with_fuel(escape, 2);
                assert(seq![content@[i as int]].drop_first() =~= Seq::<u8>::empty());
            }
            assert(out@ =~= old(out)@ + escape(content@.subrange(0, i + 1)));
        }
        i += 1;
    }
    proof {
        assert(content@.subrange(0, content@.len() as int) =~= content@);
    }
}

/// Appends the rendering of `v` to `out`.
pub fn render_json(v: &Json, out: &mut Vec<u8>)
    ensures
        final(out)@ == old(out)@ + spec_render(v@),
    decreases v, 0int,
{
    match v {
        Json::Null => {
            out.push(110);
            out.push(117);
            out.push(108);
            out.push(108);
            assert(final(out)@ =~= old(out)@ + spec_render(v@));
        },
        Json::Bool(b) => {
            if *b {
                out.push(116);
                out.push(114);
                out.push(117);
                out.push(101);
            } else {
                out.push(102);
                out.push(97);
                out.push(108);
                out.push(115);
                out.push(101);
            }
            assert(final(out)@ =~= old(out)@ + spec_render(v@));
        },
        Json::Num(n) => {
            if n.neg {
                out.push(45);
            }
            push_dec(out, n.mag);
            assert(final(out)@ =~= old(out)@ + spec_render(v@));
        },
        Json::Str(s) => {
            out.push(34);
            push_escaped(out, s.as_slice());
            out.push(34);
            assert(final(out)@ =~= old(out)@ + spec_render(v@));
        },
        Json::Arr(items) => {
            out.push(91);
            render_items(items, 0, out);
            out.push(93);
            assert(final(out)@ =~= old(out)@ + spec_render(v@));
        },
        Json::Obj(fields) => {
            out.push(123);
            render_fields(fields, 0, out);
            out.push(125);
            assert(final(out)@ =~= old(out)@ + spec_render(v@));
        },
    }
}

/// Appends the rendering of `items[i..]` to `out`.
fn render_items(items: &Vec<Json>, i: usize, out: &mut Vec<u8>)
    requires
        i <= items@.len(),
    ensures
        final(out)@ == old(out)@ + spec_render_items(view_items(items@, 0), i as int),
    decreases items, 1int, items@.len() - i,
{
    proof {
        lemma_view_items(items@, 0);
    }
    if i < items.len() {
        render_json(&items[i], out);
        if i + 1 < items.len() {
            out.push(44);
            render_items(items, i + 1, out);
            assert(final(out)@ =~= old(out)@ + spec_render_items(view_items(items@, 0), i as int));
        } else {
            assert(final(out)@ =~= old(out)@ + spec_render_items(view_items(items@, 0), i as int));
        }
    }
}

/// Appends the rendering of `fields[i..]` to `out`.
fn render_fields(fields: &Vec<(Vec<u8>, Json)>, i: usize, out: &mut Vec<u8>)
    requires
        i <= fields@.len(),
    ensures
        final(out)@ == old(out)@ + spec_render_fields(view_members(fields@, 0), i as int),
    decreases fields, 1int, fields@.len() - i,
{
    proof {
        lemma_view_members(fields@, 0);
    }
    if i < fields.len() {
        out.push(34);
        push_escaped(out, fields[i].0.as_slice());
        out.push(34);
        out.push(58);
        render_json(&fields[i].1, out);
        if i + 1 < fields.len() {
            out.push(44);
            render_fields(fields, i + 1, out);
            assert(final(out)@ =~= old(out)@ + spec_render_fields(
                view_members(fields@, 0),
                i as int,
            ));
        } else {
            assert(final(out)@ =~= old(out)@ + spec_render_fields(
                view_members(fields@, 0),
                i as int,
            ));
        }
    }
}

/// Renders a document to fresh bytes.
pub fn render(v: &Json) -> (r: Vec<u8>)
    ensures
        r@ == spec_render(v@),
{
    let mut out: Vec<u8> = Vec::new();
    render_json(v, &mut out);
    proof {
        assert(out@ =~= spec_render(v@));
    }
    out
}

/// Length of the digit run at the front of `s`.
pub open spec fn digits_len(s: Seq<u8>) -> int
    decreases s.len(),
{
    if s.len() == 0 || !is_digit(s[0]) {
        0
    } else {
        1 + digits_len(s.drop_first())
    }
}

/// Numeric value of a digit string, most significant first.
pub open spec fn val_of(d: Seq<u8>) -> nat
    decreases d.len(),
{
    if d.len() == 0 {
        0
    } else {
        val_of(d.drop_last()) * 10 + (d.last() - 48) as nat
    }
}

/// Reads an unsigned decimal from the front of `s`: the digit run must be
/// non-empty, without a redundant leading zero, and fit in `u64`.
pub open spec fn parse_udec(s: Seq<u8>) -> Option<(u64, Seq<u8>)> {
    let k = digits_len(s);
    if k == 0 {
        None
    } else if k > 1 && s[0] == 48 {
        None
    } else if val_of(s.subrange(0, k)) > u64::MAX {
        None
    } else {
        Some(((val_of(s.subrange(0, k)) as u64), s.skip(k)))
    }
}

/// Reads a number (optional minus sign, then digits); rejects `-0`.
pub open spec fn parse_num(s: Seq<u8>) -> Option<(JsonNum, Seq<u8>)> {
    if s.len() > 0 && s[0] == 45 {
        match parse_udec(s.drop_first()) {
            Some((m, r)) => if m > 0 {
                Some((JsonNum { neg: true, mag: m }, r))
            } else {
                None
            },
            None => None,
        }
    } else {
        match parse_udec(s) {
            Some((m, r)) => Some((JsonNum { neg: false, mag: m }, r)),
            None => None,
        }
    }
}

/// The byte a standard control escape stands for.
pub open spec fn unescaped_control(e: u8) -> u8 {
    if e == 110 {
        10u8
    } else if e == 116 {
        9u8
    } else if e == 114 {
        13u8
    } else if e == 98 {
        8u8
    } else {
        12u8
    }
}

/// Reads a string-literal body up to and including the closing quote,
/// returning the unescaped content.
pub open spec fn parse_str_content(s: Seq<u8>) -> Option<(Seq<u8>, Seq<u8>)>
    decreases s.len(),
{
    if s.len() == 0 {
        None
    } else if s[0] == 34 {
        Some((Seq::empty(), s.drop_first()))
    } else if s[0] == 92 {
        if s.len() >= 2 && (s[1] == 34 || s[1] == 92 || s[1] == 47) {
            match parse_str_content(s.skip(2)) {
                Some((c, r)) => Some((seq![s[1]] + c, r)),
                None => None,
            }
        } else if s.len() >= 2 && (s[1] == 110 || s[1] == 116 || s[1] == 114 || s[1] == 98
            || s[1] == 102) {
            match parse_str_content(s.skip(2)) {
                Some((c, r)) => Some((seq![unescaped_control(s[1])] + c, r)),
                None => None,
            }
        } else {
            None
        }
    } else {
        match parse_str_content(s.drop_first()) {
            Some((c, r)) => Some((seq![s[0]] + c, r)),
            None => None,
        }
    }
}

/// Reads one JSON value from the front of `s`, returning it with the
/// remaining bytes.
pub open spec fn parse_value(s: Seq<u8>) -> Option<(JsonV, Seq<u8>)>
    decreases s.len(), 2int,
{
    let t = skip_ws(s);
    if t.len() > s.len() {
        None
    } else if t.len() == 0 {
        None
    } else if t[0] == 110 {
        if t.len() >= 4 && t[1] == 117 && t[2] == 108 && t[3] == 108 {
            Some((JsonV::Null, t.skip(4)))
        } else {
            None
        }
    } else if t[0] == 116 {
        if t.len() >= 4 && t[1] == 114 && t[2] == 117 && t[3] == 101 {
            Some((JsonV::Bool(true), t.skip(4)))
        } else {
            None
        }
    } else if t[0] == 102 {
        if t.len() >= 5 && t[1] == 97 && t[2] == 108 && t[3] == 115 && t[4] == 101 {
            Some((JsonV::Bool(false), t.skip(5)))
        } else {
            None
        }
    } else if t[0] == 34 {
        match parse_str_content(t.drop_first()) {
            Some((c, r)) => Some((JsonV::Str(c), r)),
            None => None,
        }
    } else if t[0] == 45 || is_digit(t[0]) {
        match parse_num(t) {
            Some((n, r)) => Some((JsonV::Num(n), r)),
            None => None,
        }
    } else if t[0] == 91 {
        let body = skip_ws(t.drop_first());
        if body.len() <= t.len() && body.len() > 0 && body[0] == 93 {
            Some((JsonV::Arr(Seq::empty()), body.drop_first()))
        } else {
            match parse_items(t.drop_first()) {
                Some((items, r)) => Some((JsonV::Arr(items), r)),
                None => None,
            }
        }
    } else if t[0] == 123 {
        let body = skip_ws(t.drop_first());
        if body.len() <= t.len() && body.len() > 0 && body[0] == 125 {
            Some((JsonV::Obj(Seq::empty()), body.drop_first()))
        } else {
            match parse_members(t.drop_first()) {
                Some((fields, r)) => Some((JsonV::Obj(fields), r)),
                None => None,
            }
        }
    } else {
        None
    }
}

/// Reads a non-empty, comma-separated element list up to and including the
/// closing bracket. The `r.len() < s.len()` tests keep the recursion
/// visibly decreasing; a successful value parse always consumes input, so
/// they never fail on reachable paths.
pub open spec fn parse_items(s: Seq<u8>) -> Option<(Seq<JsonV>, Seq<u8>)>
    decreases s.len(), 3int,
{
    match parse_value(s) {
        Some((v, r)) => {
            let rr = skip_ws(r);
            if rr.len() < s.len() {
                if rr.len() > 0 && rr[0] == 44 {
                    match parse_items(rr.drop_first()) {
                        Some((rest_items, r2)) => Some((seq![v] + rest_items, r2)),
                        None => None,
                    }
                } else if rr.len() > 0 && rr[0] == 93 {
                    Some((seq![v], rr.drop_first()))
                } else {
                    None
                }
            } else {
                None
            }
        },
        None => None,
    }
}

/// Reads a non-empty member list (`"key":value`, comma separated) up to and
/// including the closing brace.
pub open spec fn parse_members(s: Seq<u8>) -> Option<(Seq<(Seq<u8>, JsonV)>, Seq<u8>)>
    decreases s.len(), 3int,
{
    let t = skip_ws(s);
    if t.len() > s.len() || t.len() == 0 || t[0] != 34 {
        None
    } else {
        match parse_str_content(t.drop_first()) {
            Some((k, r)) => {
                let rk = skip_ws(r);
                if rk.len() < s.len() && rk.len() > 0 && rk[0] == 58 {
                    match parse_value(rk.drop_first()) {
                        Some((v, r2)) => {
                            let rw = skip_ws(r2);
                            if rw.len() < s.len() {
                                if rw.len() > 0 && rw[0] == 44 {
                                    match parse_members(rw.drop_first()) {
                                        Some((rest_fields, r3)) => Some(
                                            (seq![(k, v)] + rest_fields, r3),
                                        ),
                                        None => None,
                                    }
                                } else if rw.len() > 0 && rw[0] == 125 {
                                    Some((seq![(k, v)], rw.drop_first()))
                                } else {
                                    None
                                }
                            } else {
                                None
                            }
                        },
                        None => None,
                    }
                } else {
                    None
                }
            },
            None => None,
        }
    }
}

/// Parses a whole document: one value consuming all input.
pub open spec fn spec_parse(s: Seq<u8>) -> Option<JsonV> {
    match parse_value(s) {
        Some((v, r)) => if skip_ws(r).len() == 0 {
            Some(v)
        } else {
            None
        },
        None => None,
    }
}

/// True when `rest` cannot extend a decimal literal that ends right before
/// it.
pub open spec fn num_boundary(rest: Seq<u8>) -> bool {
    rest.len() == 0 || !is_digit(rest[0])
}

/// Facts about decimal renderings: non-empty, all digits, no redundant
/// leading zero.
pub proof fn lemma_dec_digits(n: nat)
    ensures
        dec_of(n).len() >= 1,
        forall|i: int| 0 <= i < dec_of(n).len() ==> is_digit(#[trigger] dec_of(n)[i]),
        n >= 1 ==> dec_of(n)[0] != 48,
        n < 10 ==> dec_of(n) == seq![(48 + n) as u8],
    decreases n,
{
    if n >= 10 {
        lemma_dec_digits(n / 10);
        assert(dec_of(n) == dec_of(n / 10) + seq![(48 + n % 10) as u8]);
        assert(n % 10 < 10);
        assert(forall|i: int| 0 <= i < dec_of(n).len() ==> is_digit(#[trigger] dec_of(n)[i])) by {
            assert(forall|i: int|
                0 <= i < dec_of(n / 10).len() ==> dec_of(n)[i] == #[trigger] dec_of(n / 10)[i]);
            assert(dec_of(n)[dec_of(n).len() - 1] == (48 + n % 10) as u8);
        }
    }
}

/// A digit run followed by a non-digit has exactly the run's length.
pub proof fn lemma_digits_len_app(d: Seq<u8>, rest: Seq<u8>)
    requires
        forall|i: int| 0 <= i < d.len() ==> is_digit(#[trigger] d[i]),
        num_boundary(rest),
    ensures
        digits_len(d + rest) == d.len(),
    decreases d.len(),
{
    if d.len() == 0 {
        assert(d + rest =~= rest);
    } else {
        lemma_digits_len_app(d.drop_first(), rest);
        assert((d + rest).drop_first() =~= d.drop_first() + rest);
    }
}

/// Digit runs never exceed the input.
pub proof fn lemma_digits_len_le(s: Seq<u8>)
    ensures
        0 <= digits_len(s) <= s.len(),
    decreases s.len(),
{
    if s.len() > 0 && is_digit(s[0]) {
        lemma_digits_len_le(s.drop_first());
    }
}

/// Reading back the decimal digits of `n` yields `n`.
pub proof fn lemma_val_dec(n: nat)
    ensures
        val_of(dec_of(n)) == n,
    decreases n,
{
    if n < 10 {
        assert(seq![(48 + n) as u8].drop_last() =~= Seq::<u8>::empty());
        assert(val_of(Seq::<u8>::empty()) == 0);
        assert(dec_of(n) == seq![(48 + n) as u8]);
        assert(seq![(48 + n) as u8].last() == (48 + n) as u8);
    } else {
        lemma_val_dec(n / 10);
        let d = dec_of(n / 10);
        let c = (48 + n % 10) as u8;
        assert(dec_of(n) == d + seq![c]);
        assert((d + seq![c]).drop_last() =~= d);
        assert((d + seq![c]).last() == c);
        vstd::arithmetic::div_mod::lemma_fundamental_div_mod(n as int, 10);
    }
}

/// A rendered `u64` followed by a non-digit parses back exactly.
pub proof fn lemma_parse_udec(n: u64, rest: Seq<u8>)
    requires
        num_boundary(rest),
    ensures
        parse_udec(dec_of(n as nat) + rest) == Some((n, rest)),
{
    let d = dec_of(n as nat);
    let s = d + rest;
    lemma_dec_digits(n as nat);
    lemma_digits_len_app(d, rest);
    lemma_val_dec(n as nat);
    assert(s.subrange(0, d.len() as int) =~= d);
    assert(s.skip(d.len() as int) =~= rest);
    if d.len() > 1 {
        assert(n >= 1) by {
            if (n as nat) < 10 {
                assert(d == seq![(48 + n as nat) as u8]);
            }
        }
        assert(s[0] == d[0]);
    }
}

/// A rendered number followed by a non-digit parses back exactly.
pub proof fn lemma_parse_num(n: JsonNum, rest: Seq<u8>)
    requires
        n.neg ==> n.mag > 0,
        num_boundary(rest),
    ensures
        parse_num(render_num(n) + rest) == Some((n, rest)),
{
    let s = render_num(n) + rest;
    lemma_dec_digits(n.mag as nat);
    if n.neg {
        assert(s[0] == 45);
        assert(s.drop_first() =~= dec_of(n.mag as nat) + rest);
        lemma_parse_udec(n.mag, rest);
    } else {
        assert(s =~= dec_of(n.mag as nat) + rest);
        assert(is_digit(s[0]));
        lemma_parse_udec(n.mag, rest);
    }
}

/// An escaped string body plus closing quote parses back to its content.
pub proof fn lemma_parse_str(content: Seq<u8>, rest: Seq<u8>)
    ensures
        parse_str_content(escape(content) + seq![34u8] + rest) == Some((content, rest)),
    decreases content.len(),
{
    let s = escape(content) + seq![34u8] + rest;
    if content.len() == 0 {
        assert(escape(content) =~= Seq::<u8>::empty());
        assert(s =~= seq![34u8] + rest);
        assert(s.drop_first() =~= rest);
        assert(Some((Seq::<u8>::empty(), rest)) == Some((content, rest))) by {
            assert(content =~= Seq::<u8>::empty());
        }
    } else {
        let c = content[0];
        lemma_parse_str(content.drop_first(), rest);
        assert(escape(content) == esc(c) + escape(content.drop_first()));
        if c == 34 || c == 92 {
            assert(s[0] == 92 && s[1] == c);
            assert(s.skip(2) =~= escape(content.drop_first()) + seq![34u8] + rest);
            assert(seq![c] + content.drop_first() =~= content);
        } else {
            assert(s[0] == c);
            assert(s.drop_first() =~= escape(content.drop_first()) + seq![34u8] + rest);
            assert(seq![c] + content.drop_first() =~= content);
        }
    }
}

/// Every rendering is non-empty.
pub proof fn lemma_render_len(v: JsonV)
    ensures
        spec_render(v).len() >= 1,
{
    match v {
        JsonV::Num(n) => {
            lemma_dec_digits(n.mag as nat);
        },
        _ => {},
    }
}

/// The first rendered byte identifies the value form; in particular it is
/// never a comma, colon or closing delimiter.
pub proof fn lemma_render_first(v: JsonV)
    ensures
        spec_render(v).len() >= 1,
        spec_render(v)[0] == 110 || spec_render(v)[0] == 116 || spec_render(v)[0] == 102
            || spec_render(v)[0] == 34 || spec_render(v)[0] == 45 || is_digit(spec_render(v)[0])
            || spec_render(v)[0] == 91 || spec_render(v)[0] == 123,
{
    match v {
        JsonV::Num(n) => {
            lemma_dec_digits(n.mag as nat);
            if !n.neg {
                assert(spec_render(v)[0] == dec_of(n.mag as nat)[0]);
            }
        },
        _ => {},
    }
}

/// A rendered value followed by a non-digit boundary parses back exactly.
pub proof fn lemma_parse_render(v: JsonV, rest: Seq<u8>)
    requires
        wf_json(v),
        num_boundary(rest),
    ensures
        parse_value(spec_render(v) + rest) == Some((v, rest)),
    decreases v, 0int,
{
    let s = spec_render(v) + rest;
    lemma_render_first(v);
    assert(s[0] == spec_render(v)[0]);
    assert(!is_ws(s[0]));
    assert(skip_ws(s) == s);
    lemma_skip_ws_le(s);
    match v {
        JsonV::Null => {
            assert(s.skip(4) =~= rest);
        },
        JsonV::Bool(b) => {
            if b {
                assert(s.skip(4) =~= rest);
            } else {
                assert(s.skip(5) =~= rest);
            }
        },
        JsonV::Num(n) => {
            lemma_parse_num(n, rest);
            lemma_dec_digits(n.mag as nat);
            if n.neg {
                assert(s[0] == 45);
            } else {
                assert(s =~= dec_of(n.mag as nat) + rest);
                assert(is_digit(s[0]));
            }
            assert(s =~= render_num(n) + rest);
        },
        JsonV::Str(c) => {
            assert(s[0] == 34);
            assert(s.drop_first() =~= escape(c) + seq![34u8] + rest);
            lemma_parse_str(c, rest);
        },
        JsonV::Arr(items) => {
            assert(s[0] == 91);
            if items.len() == 0 {
                assert(s =~= seq![91u8, 93u8] + rest);
                assert(s.drop_first() =~= seq![93u8] + rest);
                assert(!is_ws(s.drop_first()[0]));
                assert(skip_ws(s.drop_first()) == s.drop_first());
                assert(s.drop_first().drop_first() =~= rest);
                assert(JsonV::Arr(Seq::<JsonV>::empty()) == v) by {
                    assert(items =~= Seq::<JsonV>::empty());
                }
            } else {
                lemma_parse_items_seq(items, 0, rest);
                assert(s.drop_first() =~= spec_render_items(items, 0) + seq![93u8] + rest);
                lemma_render_first(items[0]);
                assert(spec_render_items(items, 0)[0] == spec_render(items[0])[0]);
                assert(s[1] == spec_render(items[0])[0]);
                assert(s[1] != 93);
                assert(!is_ws(s.drop_first()[0]));
                assert(skip_ws(s.drop_first()) == s.drop_first());
                assert(items.skip(0) =~= items);
            }
        },
        JsonV::Obj(fields) => {
            assert(s[0] == 123);
            if fields.len() == 0 {
                assert(s =~= seq![123u8, 125u8] + rest);
                assert(s.drop_first() =~= seq![125u8] + rest);
                assert(!is_ws(s.drop_first()[0]));
                assert(skip_ws(s.drop_first()) == s.drop_first());
                assert(s.drop_first().drop_first() =~= rest);
                assert(JsonV::Obj(Seq::<(Seq<u8>, JsonV)>::empty()) == v) by {
                    assert(fields =~= Seq::<(Seq<u8>, JsonV)>::empty());
                }
            } else {
                lemma_parse_members_seq(fields, 0, rest);
                assert(s.drop_first() =~= spec_render_fields(fields, 0) + seq![125u8] + rest);
                assert(spec_render_fields(fields, 0)[0] == 34);
                assert(s[1] == 34);
                assert(!is_ws(s.drop_first()[0]));
                assert(skip_ws(s.drop_first()) == s.drop_first());
                assert(fields.skip(0) =~= fields);
            }
        },
    }
}

/// Rendered elements `items[i..]` plus `]` parse back to those elements.
#[verifier::rlimit(60)]
#[verifier::spinoff_prover]
pub proof fn lemma_parse_items_seq(items: Seq<JsonV>, i: int, rest: Seq<u8>)
    requires
        0 <= i < items.len(),
        forall|k: int| 0 <= k < items.len() ==> wf_json(#[trigger] items[k]),
    ensures
        parse_items(spec_render_items(items, i) + seq![93u8] + rest) == Some(
            (items.skip(i), rest),
        ),
    decreases items, 1int, items.len() - i,
{
    let s = spec_render_items(items, i) + seq![93u8] + rest;
    lemma_render_len(items[i]);
    if i == items.len() - 1 {
        let tail = seq![93u8] + rest;
        lemma_parse_render(items[i], tail);
        assert(s =~= spec_render(items[i]) + tail);
        assert(parse_value(s) == Some((items[i], tail)));
        assert(!is_ws(tail[0]));
        assert(skip_ws(tail) == tail);
        assert(tail.len() < s.len());
        assert(tail[0] == 93);
        assert(tail.drop_first() =~= rest);
        assert(seq![items[i]] =~= items.skip(i));
    } else {
        lemma_parse_items_seq(items, i + 1, rest);
        let tail = seq![44u8] + (spec_render_items(items, i + 1) + seq![93u8] + rest);
        lemma_parse_render(items[i], tail);
        assert(s =~= spec_render(items[i]) + tail);
        assert(parse_value(s) == Some((items[i], tail)));
        assert(!is_ws(tail[0]));
        assert(skip_ws(tail) == tail);
        assert(tail.len() < s.len());
        assert(tail[0] == 44);
        assert(tail.drop_first() =~= spec_render_items(items, i + 1) + seq![93u8] + rest);
        assert(seq![items[i]] + items.skip(i + 1) =~= items.skip(i));
    }
}

/// Rendered members `fields[i..]` plus `}` parse back to those members.
#[verifier::rlimit(60)]
#[verifier::spinoff_prover]
pub proof fn lemma_parse_members_seq(fields: Seq<(Seq<u8>, JsonV)>, i: int, rest: Seq<u8>)
    requires
        0 <= i < fields.len(),
        forall|k: int| 0 <= k < fields.len() ==> wf_json(#[trigger] fields[k].1),
    ensures
        parse_members(spec_render_fields(fields, i) + seq![125u8] + rest) == Some(
            (fields.skip(i), rest),
        ),
    decreases fields, 1int, fields.len() - i,
{
    let s = spec_render_fields(fields, i) + seq![125u8] + rest;
    lemma_render_len(fields[i].1);
    assert(s[0] == 34);
    assert(!is_ws(s[0]));
    assert(skip_ws(s) == s);
    lemma_skip_ws_le(s);
    if i == fields.len() - 1 {
        let vtail = seq![125u8] + rest;
        lemma_parse_render(fields[i].1, vtail);
        let ktail = seq![58u8] + (spec_render(fields[i].1) + vtail);
        lemma_parse_str(fields[i].0, ktail);
        assert(s.drop_first() =~= escape(fields[i].0) + seq![34u8] + ktail);
        assert(parse_str_content(s.drop_first()) == Some((fields[i].0, ktail)));
        assert(!is_ws(ktail[0]));
        assert(skip_ws(ktail) == ktail);
        assert(ktail.len() < s.len());
        assert(ktail[0] == 58);
        assert(ktail.drop_first() =~= spec_render(fields[i].1) + vtail);
        assert(parse_value(ktail.drop_first()) == Some((fields[i].1, vtail)));
        assert(!is_ws(vtail[0]));
        assert(skip_ws(vtail) == vtail);
        assert(vtail.len() < s.len());
        assert(vtail[0] == 125);
        assert(vtail.drop_first() =~= rest);
        assert(seq![(fields[i].0, fields[i].1)] =~= fields.skip(i));
    } else {
        lemma_parse_members_seq(fields, i + 1, rest);
        let vtail = seq![44u8] + (spec_render_fields(fields, i + 1) + seq![125u8] + rest);
        lemma_parse_render(fields[i].1, vtail);
        let ktail = seq![58u8] + (spec_render(fields[i].1) + vtail);
        lemma_parse_str(fields[i].0, ktail);
        assert(s.drop_first() =~= escape(fields[i].0) + seq![34u8] + ktail);
        assert(parse_str_content(s.drop_first()) == Some((fields[i].0, ktail)));
        assert(!is_ws(ktail[0]));
        assert(skip_ws(ktail) == ktail);
        assert(ktail.len() < s.len());
        assert(ktail[0] == 58);
        assert(ktail.drop_first() =~= spec_render(fields[i].1) + vtail);
        assert(parse_value(ktail.drop_first()) == Some((fields[i].1, vtail)));
        assert(!is_ws(vtail[0]));
        assert(skip_ws(vtail) == vtail);
        assert(vtail.len() < s.len());
        assert(vtail[0] == 44);
        assert(vtail.drop_first() =~= spec_render_fields(fields, i + 1) + seq![125u8] + rest);
        assert(seq![(fields[i].0, fields[i].1)] + fields.skip(i + 1) =~= fields.skip(i));
    }
}

/// Round trip: parsing a rendered canonical document returns it unchanged.
pub proof fn lemma_render_parse(v: JsonV)
    requires
        wf_json(v),
    ensures
        spec_parse(spec_render(v)) == Some(v),
{
    lemma_parse_render(v, Seq::empty());
    assert(spec_render(v) + Seq::<u8>::empty() =~= spec_render(v));
    assert(skip_ws(Seq::<u8>::empty()).len() == 0);
}

/// Digit-string values only grow as digits are appended.
pub proof fn lemma_val_mono(d: Seq<u8>, m: int)
    requires
        0 <= m <= d.len(),
    ensures
        val_of(d.subrange(0, m)) <= val_of(d),
    decreases d.len() - m,
{
    if m < d.len() {
        lemma_val_mono(d, m + 1);
        assert(d.subrange(0, m + 1).drop_last() =~= d.subrange(0, m));
        assert(d.subrange(0, m + 1).last() == d[m]);
    } else {
        assert(d.subrange(0, m) =~= d);
    }
}

/// Extent of the digit run starting at `i`.
fn scan_digits(s: &[u8], i: usize) -> (j: usize)
    requires
        i <= s@.len(),
    ensures
        i <= j <= s@.len(),
        j - i == digits_len(s@.skip(i as int)),
        forall|k: int| i <= k < j ==> is_digit(#[trigger] s@[k]),
    decreases s@.len() - i,
{
    let mut j: usize = i;
    while j < s.len() && 48 <= s[j] && s[j] <= 57
        invariant
            i <= j <= s@.len(),
            digits_len(s@.skip(i as int)) == j - i + digits_len(s@.skip(j as int)),
            forall|k: int| i <= k < j ==> is_digit(#[trigger] s@[k]),
        decreases s@.len() - j,
    {
        proof {
            assert(s@.skip(j as int).drop_first() =~= s@.skip(j + 1));
            assert(s@.skip(j as int)[0] == s@[j as int]);
        }
        j += 1;
    }
    proof {
        if j < s.len() {
            assert(s@.skip(j as int)[0] == s@[j as int]);
            assert(digits_len(s@.skip(j as int)) == 0);
        } else {
            assert(s@.skip(j as int).len() == 0);
        }
    }
    j
}

/// Reads an unsigned decimal at `i`, exactly as `parse_udec` describes.
fn parse_udec_at(s: &[u8], i: usize) -> (r: Option<(u64, usize)>)
    requires
        i <= s@.len(),
    ensures
        match r {
            Some((n, j)) => i < j <= s@.len() && parse_udec(s@.skip(i as int)) == Some(
                (n, s@.skip(j as int)),
            ),
            None => parse_udec(s@.skip(i as int)) is None,
        },
{
    let ghost t = s@.skip(i as int);
    let j = scan_digits(s, i);
    let ghost k = digits_len(t);
    proof {
        assert(t.subrange(0, k) =~= s@.subrange(i as int, j as int));
    }
    if j == i {
        return None;
    }
    if j - i > 1 && s[i] == 48 {
        proof {
            assert(t[0] == s@[i as int]);
        }
        return None;
    }
    let ghost dd = s@.subrange(i as int, j as int);
    let mut val: u64 = 0;
    let mut p: usize = i;
    while p < j
        invariant
            i <= p <= j <= s@.len(),
            forall|q: int| i <= q < j ==> is_digit(#[trigger] s@[q]),
            t == s@.skip(i as int),
            dd == s@.subrange(i as int, j as int),
            digits_len(t) == j - i,
            t.subrange(0, j - i) == dd,
            val == val_of(s@.subrange(i as int, p as int)),
        decreases j - p,
    {
        let d: u8 = s[p] - 48;
        let step1 = val.checked_mul(10);
        proof {
            assert(s@.subrange(i as int, p + 1).drop_last() =~= s@.subrange(i as int, p as int));
            assert(s@.subrange(i as int, p + 1).last() == s@[p as int]);
            assert(dd.subrange(0, p + 1 - i) =~= s@.subrange(i as int, p + 1));
        }
        match step1 {
            Some(v10) => {
                let step2 = v10.checked_add(d as u64);
                match step2 {
                    Some(v2) => {
                        val = v2;
                        p += 1;
                    },
                    None => {
                        proof {
                            assert(val_of(s@.subrange(i as int, p + 1)) > u64::MAX);
                            lemma_val_mono(dd, p + 1 - i);
                            assert(val_of(dd) > u64::MAX);
                            assert(t.subrange(0, digits_len(t)) == dd);
                            assert(parse_udec(t) is None);
                        }
                        return None;
                    },
                }
            },
            None => {
                proof {
                    assert(val_of(s@.subrange(i as int, p + 1)) > u64::MAX);
                    lemma_val_mono(dd, p + 1 - i);
                    assert(val_of(dd) > u64::MAX);
                    assert(t.subrange(0, digits_len(t)) == dd);
                    assert(parse_udec(t) is None);
                }
                return None;
            },
        }
    }
    proof {
        assert(t.skip(k) =~= s@.skip(j as int));
    }
    Some((val, j))
}

/// Reads a number at `i`, exactly as `parse_num` describes.
fn parse_num_at(s: &[u8], i: usize) -> (r: Option<(JsonNum, usize)>)
    requires
        i <= s@.len(),
    ensures
        match r {
            Some((n, j)) => i < j <= s@.len() && parse_num(s@.skip(i as int)) == Some(
                (n, s@.skip(j as int)),
            ),
            None => parse_num(s@.skip(i as int)) is None,
        },
{
    let ghost t = s@.skip(i as int);
    if i < s.len() && s[i] == 45 {
        proof {
            assert(t[0] == s@[i as int]);
            assert(t.drop_first() =~= s@.skip(i + 1));
        }
        match parse_udec_at(s, i + 1) {
            Some((m, j)) => {
                if m > 0 {
                    Some((JsonNum { neg: true, mag: m }, j))
                } else {
                    None
                }
            },
            None => None,
        }
    } else {
        proof {
            if i < s.len() {
                assert(t[0] == s@[i as int]);
            }
        }
        match parse_udec_at(s, i) {
            Some((m, j)) => Some((JsonNum { neg: false, mag: m }, j)),
            None => None,
        }
    }
}

/// Reads a string-literal body at `i`, exactly as `parse_str_content`
/// describes.
fn parse_str_at(s: &[u8], i: usize) -> (r: Option<(Vec<u8>, usize)>)
    requires
        i <= s@.len(),
    ensures
        match r {
            Some((c, j)) => i < j <= s@.len() && parse_str_content(s@.skip(i as int)) == Some(
                (c@, s@.skip(j as int)),
            ),
            None => parse_str_content(s@.skip(i as int)) is None,
        },
    decreases s@.len() - i,
{
    let ghost t = s@.skip(i as int);
    if i == s.len() {
        return None;
    }
    let c = s[i];
    proof {
        assert(t[0] == s@[i as int]);
    }
    if c == 34 {
        proof {
            assert(t.drop_first() =~= s@.skip(i + 1));
        }
        Some((Vec::new(), i + 1))
    } else if c == 92 {
        if i + 1 == s.len() {
            return None;
        }
        let e = s[i + 1];
        proof {
            assert(t[1] == s@[i + 1]);
        }
        if e == 34 || e == 92 || e == 47 {
            proof {
                assert(t.skip(2) =~= s@.skip(i + 2));
            }
            match parse_str_at(s, i + 2) {
                Some((mut content, j)) => {
                    content.insert(0, e);
                    proof {
                        assert(content@ =~= seq![t[1]] + content@.drop_first());
                    }
                    Some((content, j))
                },
                None => None,
            }
        } else if e == 110 || e == 116 || e == 114 || e == 98 || e == 102 {
            let raw: u8 = if e == 110 {
                10
            } else if e == 116 {
                9
            } else if e == 114 {
                13
            } else if e == 98 {
                8
            } else {
                12
            };
            proof {
                assert(t.skip(2) =~= s@.skip(i + 2));
                assert(raw == unescaped_control(t[1]));
            }
            match parse_str_at(s, i + 2) {
                Some((mut content, j)) => {
                    content.insert(0, raw);
                    proof {
                        assert(content@ =~= seq![unescaped_control(t[1])]
                            + content@.drop_first());
                    }
                    Some((content, j))
                },
                None => None,
            }
        } else {
            None
        }
    } else {
        proof {
            assert(t.drop_first() =~= s@.skip(i + 1));
        }
        match parse_str_at(s, i + 1) {
            Some((mut content, j)) => {
                content.insert(0, c);
                proof {
                    assert(content@ =~= seq![t[0]] + content@.drop_first());
                }
                Some((content, j))
            },
            None => None,
        }
    }
}

/// Advances past insignificant whitespace.
fn skip_ws_at(s: &[u8], i: usize) -> (j: usize)
    requires
        i <= s@.len(),
    ensures
        i <= j <= s@.len(),
        skip_ws(s@.skip(i as int)) == s@.skip(j as int),
        j < s@.len() ==> !is_ws(s@[j as int]),
    decreases s@.len() - i,
{
    let mut j: usize = i;
    while j < s.len() && (s[j] == 32 || s[j] == 9 || s[j] == 10 || s[j] == 13)
        invariant
            i <= j <= s@.len(),
            skip_ws(s@.skip(i as int)) == skip_ws(s@.skip(j as int)),
        decreases s@.len() - j,
    {
        proof {
            assert(s@.skip(j as int)[0] == s@[j as int]);
            assert(s@.skip(j as int).drop_first() =~= s@.skip(j + 1));
        }
        j += 1;
    }
    proof {
        if j < s.len() {
            assert(s@.skip(j as int)[0] == s@[j as int]);
        } else {
            assert(s@.skip(j as int).len() == 0);
        }
        assert(skip_ws(s@.skip(j as int)) == s@.skip(j as int));
    }
    j
}

/// Reads one value at `i`, exactly as `parse_value` describes.
pub fn parse_value_at(s: &[u8], i0: usize) -> (r: Option<(Json, usize)>)
    requires
        i0 <= s@.len(),
    ensures
        match r {
            Some((v, j)) => i0 < j <= s@.len() && parse_value(s@.skip(i0 as int)) == Some(
                (v@, s@.skip(j as int)),
            ),
            None => parse_value(s@.skip(i0 as int)) is None,
        },
    decreases s@.len() - i0, 2int,
{
    let i = skip_ws_at(s, i0);
    let ghost t = s@.skip(i as int);
    proof {
        assert(skip_ws(s@.skip(i0 as int)) == t);
        assert(t.len() <= s@.skip(i0 as int).len());
    }
    if i == s.len() {
        return None;
    }
    let c = s[i];
    proof {
        assert(t[0] == s@[i as int]);
        assert(forall|k: int| 0 <= k < t.len() ==> t[k] == s@[i + k]);
    }
    if c == 110 {
        if s.len() - i > 3 && s[i + 1] == 117 && s[i + 2] == 108 && s[i + 3] == 108 {
            proof {
                assert(t.skip(4) =~= s@.skip(i + 4));
            }
            Some((Json::Null, i + 4))
        } else {
            None
        }
    } else if c == 116 {
        if s.len() - i > 3 && s[i + 1] == 114 && s[i + 2] == 117 && s[i + 3] == 101 {
            proof {
                assert(t.skip(4) =~= s@.skip(i + 4));
            }
            Some((Json::Bool(true), i + 4))
        } else {
            None
        }
    } else if c == 102 {
        if s.len() - i > 4 && s[i + 1] == 97 && s[i + 2] == 108 && s[i + 3] == 115 && s[i + 4]
            == 101 {
            proof {
                assert(t.skip(5) =~= s@.skip(i + 5));
            }
            Some((Json::Bool(false), i + 5))
        } else {
            None
        }
    } else if c == 34 {
        proof {
            assert(t.drop_first() =~= s@.skip(i + 1));
        }
        match parse_str_at(s, i + 1) {
            Some((content, j)) => Some((Json::Str(content), j)),
            None => None,
        }
    } else if c == 45 || (48 <= c && c <= 57) {
        match parse_num_at(s, i) {
            Some((n, j)) => Some((Json::Num(n), j)),
            None => None,
        }
    } else if c == 91 {
        let jb = skip_ws_at(s, i + 1);
        proof {
            assert(t.drop_first() =~= s@.skip(i + 1));
            assert(skip_ws(t.drop_first()) == s@.skip(jb as int));
            assert(s@.skip(jb as int).len() <= t.len());
        }
        if jb < s.len() && s[jb] == 93 {
            let items: Vec<Json> = Vec::new();
            proof {
                assert(s@.skip(jb as int)[0] == s@[jb as int]);
                assert(s@.skip(jb as int).drop_first() =~= s@.skip(jb + 1));
                assert(view_items(items@, 0) =~= Seq::<JsonV>::empty());
            }
            Some((Json::Arr(items), jb + 1))
        } else {
            proof {
                if jb < s.len() {
                    assert(s@.skip(jb as int)[0] == s@[jb as int]);
                } else {
                    assert(s@.skip(jb as int).len() == 0);
                }
            }
            match parse_items_at(s, i + 1) {
                Some((items, j)) => Some((Json::Arr(items), j)),
                None => None,
            }
        }
    } else if c == 123 {
        let jb = skip_ws_at(s, i + 1);
        proof {
            assert(t.drop_first() =~= s@.skip(i + 1));
            assert(skip_ws(t.drop_first()) == s@.skip(jb as int));
            assert(s@.skip(jb as int).len() <= t.len());
        }
        if jb < s.len() && s[jb] == 125 {
            let fields: Vec<(Vec<u8>, Json)> = Vec::new();
            proof {
                assert(s@.skip(jb as int)[0] == s@[jb as int]);
                assert(s@.skip(jb as int).drop_first() =~= s@.skip(jb + 1));
                assert(view_members(fields@, 0) =~= Seq::<(Seq<u8>, JsonV)>::empty());
            }
            Some((Json::Obj(fields), jb + 1))
        } else {
            proof {
                if jb < s.len() {
                    assert(s@.skip(jb as int)[0] == s@[jb as int]);
                } else {
                    assert(s@.skip(jb as int).len() == 0);
                }
            }
            match parse_members_at(s, i + 1) {
                Some((fields, j)) => Some((Json::Obj(fields), j)),
                None => None,
            }
        }
    } else {
        None
    }
}

/// Reads a bracketed element list at `i`, exactly as `parse_items`
/// describes.
fn parse_items_at(s: &[u8], i: usize) -> (r: Option<(Vec<Json>, usize)>)
    requires
        i <= s@.len(),
    ensures
        match r {
            Some((items, j)) => i < j <= s@.len() && parse_items(s@.skip(i as int)) == Some(
                (view_items(items@, 0), s@.skip(j as int)),
            ),
            None => parse_items(s@.skip(i as int)) is None,
        },
    decreases s@.len() - i, 3int,
{
    let ghost t = s@.skip(i as int);
    match parse_value_at(s, i) {
        Some((v, j)) => {
            let jw = skip_ws_at(s, j);
            proof {
                assert(skip_ws(s@.skip(j as int)) == s@.skip(jw as int));
                assert(s@.skip(jw as int).len() < t.len());
                if jw < s.len() {
                    assert(s@.skip(jw as int)[0] == s@[jw as int]);
                    assert(s@.skip(jw as int).drop_first() =~= s@.skip(jw + 1));
                } else {
                    assert(s@.skip(jw as int).len() == 0);
                }
            }
            if jw < s.len() && s[jw] == 44 {
                match parse_items_at(s, jw + 1) {
                    Some((mut items, j2)) => {
                        let ghost old_items = items@;
                        items.insert(0, v);
                        proof {
                            lemma_view_items(items@, 0);
                            lemma_view_items(old_items, 0);
                            assert(view_items(items@, 0) =~= seq![json_view(v)] + view_items(
                                old_items,
                                0,
                            ));
                        }
                        Some((items, j2))
                    },
                    None => None,
                }
            } else if jw < s.len() && s[jw] == 93 {
                let mut items: Vec<Json> = Vec::new();
                items.push(v);
                proof {
                    lemma_view_items(items@, 0);
                    assert(view_items(items@, 0) =~= seq![json_view(v)]);
                }
                Some((items, jw + 1))
            } else {
                None
            }
        },
        None => None,
    }
}

/// Reads a braced member list at `i`, exactly as `parse_members` describes.
fn parse_members_at(s: &[u8], i: usize) -> (r: Option<(Vec<(Vec<u8>, Json)>, usize)>)
    requires
        i <= s@.len(),
    ensures
        match r {
            Some((fields, j)) => i < j <= s@.len() && parse_members(s@.skip(i as int)) == Some(
                (view_members(fields@, 0), s@.skip(j as int)),
            ),
            None => parse_members(s@.skip(i as int)) is None,
        },
    decreases s@.len() - i, 3int,
{
    let ghost ts = s@.skip(i as int);
    let i1 = skip_ws_at(s, i);
    let ghost t = s@.skip(i1 as int);
    proof {
        assert(skip_ws(ts) == t);
        assert(t.len() <= ts.len());
    }
    if i1 == s.len() {
        return None;
    }
    proof {
        assert(t[0] == s@[i1 as int]);
    }
    if s[i1] != 34 {
        return None;
    }
    proof {
        assert(t.drop_first() =~= s@.skip(i1 + 1));
    }
    match parse_str_at(s, i1 + 1) {
        Some((k, j)) => {
            let jk = skip_ws_at(s, j);
            proof {
                assert(skip_ws(s@.skip(j as int)) == s@.skip(jk as int));
                assert(s@.skip(jk as int).len() < ts.len());
                if jk < s.len() {
                    assert(s@.skip(jk as int)[0] == s@[jk as int]);
                    assert(s@.skip(jk as int).drop_first() =~= s@.skip(jk + 1));
                } else {
                    assert(s@.skip(jk as int).len() == 0);
                }
            }
            if jk < s.len() && s[jk] == 58 {
                match parse_value_at(s, jk + 1) {
                    Some((v, j2)) => {
                        let j2w = skip_ws_at(s, j2);
                        proof {
                            assert(skip_ws(s@.skip(j2 as int)) == s@.skip(j2w as int));
                            assert(s@.skip(j2w as int).len() < ts.len());
                            if j2w < s.len() {
                                assert(s@.skip(j2w as int)[0] == s@[j2w as int]);
                                assert(s@.skip(j2w as int).drop_first() =~= s@.skip(j2w + 1));
                            } else {
                                assert(s@.skip(j2w as int).len() == 0);
                            }
                        }
                        if j2w < s.len() && s[j2w] == 44 {
                            match parse_members_at(s, j2w + 1) {
                                Some((mut fields, j3)) => {
                                    let ghost old_fields = fields@;
                                    fields.insert(0, (k, v));
                                    proof {
                                        lemma_view_members(fields@, 0);
                                        lemma_view_members(old_fields, 0);
                                        assert(view_members(fields@, 0) =~= seq![
                                            (k@, json_view(v)),
                                        ] + view_members(old_fields, 0));
                                    }
                                    Some((fields, j3))
                                },
                                None => None,
                            }
                        } else if j2w < s.len() && s[j2w] == 125 {
                            let mut fields: Vec<(Vec<u8>, Json)> = Vec::new();
                            fields.push((k, v));
                            proof {
                                lemma_view_members(fields@, 0);
                                assert(view_members(fields@, 0) =~= seq![(k@, json_view(v))]);
                            }
                            Some((fields, j2w + 1))
                        } else {
                            None
                        }
                    },
                    None => None,
                }
            } else {
                None
            }
        },
        None => None,
    }
}

/// Parses a whole document, exactly as `spec_parse` describes.
pub fn parse_json(s: &[u8]) -> (r: Option<Json>)
    ensures
        match r {
            Some(v) => spec_parse(s@) == Some(v@),
            None => spec_parse(s@) is None,
        },
{
    proof {
        assert(s@.skip(0) =~= s@);
    }
    match parse_value_at(s, 0) {
        Some((v, j)) => {
            let jw = skip_ws_at(s, j);
            if jw == s.len() {
                proof {
                    assert(skip_ws(s@.skip(j as int)).len() == 0);
                }
                Some(v)
            } else {
                proof {
                    assert(skip_ws(s@.skip(j as int)).len() > 0);
                }
                None
            }
        },
        None => None,
    }
}

} // verus!
