//! Operation-level audit events, as values.
//!
//! An audit event is `{action, actor, device_id, session_id, ts, result, extra}`;
//! the library decides the action, actor, session, result and extra fields, and
//! the caller adds the device id and time, appends the line to `audit.log` and
//! forwards it.
use crate::json::{json_string, json_string_literal};
use crate::text::{chars_of, decimal, decimal_chars, owned, push_all, push_str, string_from};
use vstd::prelude::*;

verus! {

/// Config option holding the audit-server URL. Empty means `audit.log` only.
pub const AUDIT_SERVER_OPTION: &'static str = "audit-server-url";

/// Capacity of the audit forwarding queue; an event that does not fit is kept in
/// `audit.log` only.
pub const FORWARD_QUEUE_LEN: usize = 1024;

/// One value in an event's `extra` object.
pub enum ExtraValue {
    Text(String),
    Flag(bool),
    Count(u64),
}

/// One field of an event's `extra` object.
pub struct ExtraField {
    pub key: String,
    pub value: ExtraValue,
}

/// An audit event, without the device id and time the caller adds.
pub struct AuditEvent {
    pub action: String,
    pub actor: String,
    pub session_id: u64,
    pub result: String,
    pub extra: Vec<ExtraField>,
}

pub enum ExtraValueView {
    Text(Seq<char>),
    Flag(bool),
    Count(u64),
}

pub struct AuditEventView {
    pub action: Seq<char>,
    pub actor: Seq<char>,
    pub session_id: u64,
    pub result: Seq<char>,
    pub extra: Seq<(Seq<char>, ExtraValueView)>,
}

impl View for ExtraValue {
    type V = ExtraValueView;

    open spec fn view(&self) -> ExtraValueView {
        match self {
            ExtraValue::Text(s) => ExtraValueView::Text(s@),
            ExtraValue::Flag(b) => ExtraValueView::Flag(*b),
            ExtraValue::Count(n) => ExtraValueView::Count(*n),
        }
    }
}

pub open spec fn extra_view(fields: Seq<ExtraField>) -> Seq<(Seq<char>, ExtraValueView)> {
    fields.map_values(|f: ExtraField| (f.key@, f.value@))
}

impl View for AuditEvent {
    type V = AuditEventView;

    open spec fn view(&self) -> AuditEventView {
        AuditEventView {
            action: self.action@,
            actor: self.actor@,
            session_id: self.session_id,
            result: self.result@,
            extra: extra_view(self.extra@),
        }
    }
}

/// An `extra` field holding text.
pub fn text_field(key: &str, value: &str) -> (f: ExtraField)
    ensures
        f.key@ == key@,
        f.value@ == ExtraValueView::Text(value@),
{
    ExtraField { key: owned(key), value: ExtraValue::Text(owned(value)) }
}

/// An `extra` field holding a flag.
pub fn flag_field(key: &str, value: bool) -> (f: ExtraField)
    ensures
        f.key@ == key@,
        f.value@ == ExtraValueView::Flag(value),
{
    ExtraField { key: owned(key), value: ExtraValue::Flag(value) }
}

/// An `extra` field holding a count.
pub fn count_field(key: &str, value: u64) -> (f: ExtraField)
    ensures
        f.key@ == key@,
        f.value@ == ExtraValueView::Count(value),
{
    ExtraField { key: owned(key), value: ExtraValue::Count(value) }
}

/// Record one operation-level audit event: the event with these fields, to be
/// appended to `audit.log` and, when [`forwards_audit`], forwarded.
///
/// * `action` - event name (`auth.grant`, `connect.start`, ...).
/// * `actor` - who triggered it (`operator`, `customer`).
/// * `session_id` - the session affected, `0` when not in a session.
/// * `result` - `ok` or `err`.
pub fn record(
    action: &str,
    actor: &str,
    session_id: u64,
    result: &str,
    extra: Vec<ExtraField>,
) -> (e: AuditEvent)
    ensures
        e@ == (AuditEventView {
            action: action@,
            actor: actor@,
            session_id,
            result: result@,
            extra: extra_view(extra@),
        }),
{
    AuditEvent {
        action: owned(action),
        actor: owned(actor),
        session_id,
        result: owned(result),
        extra,
    }
}

/// Whether an audit event is forwarded as well as written to `audit.log`: only
/// when an audit server is configured.
pub fn forwards_audit(audit_server_url: &str) -> (r: bool)
    ensures
        r == (audit_server_url@.len() > 0),
{
    crate::text::chars_of(audit_server_url).len() > 0
}

// ---------------------------------------------------------------------------
// The JSON line
// ---------------------------------------------------------------------------

/// `true` or `false`.
pub open spec fn flag_text(b: bool) -> Seq<char> {
    if b {
        "true"@
    } else {
        "false"@
    }
}

/// A signed integer in decimal, `-` first when negative.
pub open spec fn signed_decimal(n: int) -> Seq<char> {
    if n < 0 {
        "-"@ + decimal((-n) as nat)
    } else {
        decimal(n as nat)
    }
}

/// An `extra` value in JSON: text as a JSON string, a flag as `true`/`false`, a
/// count in decimal.
pub open spec fn extra_value_json(v: ExtraValueView) -> Seq<char> {
    match v {
        ExtraValueView::Text(t) => json_string_literal(t),
        ExtraValueView::Flag(b) => flag_text(b),
        ExtraValueView::Count(n) => decimal(n as nat),
    }
}

/// One member of a JSON object: the key as a JSON string, `:`, the value.
pub open spec fn member_json(f: (Seq<char>, ExtraValueView)) -> Seq<char> {
    json_string_literal(f.0) + ":"@ + extra_value_json(f.1)
}

/// The members of an object, separated by commas, in the order given.
pub open spec fn members_json(fs: Seq<(Seq<char>, ExtraValueView)>) -> Seq<char>
    decreases fs.len(),
{
    if fs.len() == 0 {
        seq![]
    } else if fs.len() == 1 {
        member_json(fs[0])
    } else {
        members_json(fs.drop_last()) + ","@ + member_json(fs.last())
    }
}

/// Whether key `a` sorts before key `b`, comparing from position `i` on: by the
/// first character where they differ, a key that is a prefix of the other first.
/// This is the order of their UTF-8 bytes, the order serde_json's map keeps.
pub open spec fn key_lt_from(a: Seq<char>, b: Seq<char>, i: nat) -> bool
    decreases a.len() - i,
{
    if i >= a.len() {
        i < b.len()
    } else if i >= b.len() {
        false
    } else if a[i as int] != b[i as int] {
        a[i as int] < b[i as int]
    } else {
        key_lt_from(a, b, i + 1)
    }
}

/// Whether key `a` sorts before key `b`.
pub open spec fn key_lt(a: Seq<char>, b: Seq<char>) -> bool {
    key_lt_from(a, b, 0)
}

/// The members with `f` put in: a member with the same key takes its value,
/// otherwise `f` goes before the first member whose key sorts after it.
pub open spec fn insert_member(
    ms: Seq<(Seq<char>, ExtraValueView)>,
    f: (Seq<char>, ExtraValueView),
) -> Seq<(Seq<char>, ExtraValueView)>
    decreases ms.len(),
{
    if ms.len() == 0 {
        seq![f]
    } else if ms[0].0 == f.0 {
        seq![f] + ms.skip(1)
    } else if key_lt(f.0, ms[0].0) {
        seq![f] + ms
    } else {
        seq![ms[0]] + insert_member(ms.skip(1), f)
    }
}

/// The members of the JSON object the fields make: each put in, in order, as a
/// map does - keys sorted, a repeated key keeping its last value.
pub open spec fn sorted_members(fs: Seq<(Seq<char>, ExtraValueView)>) -> Seq<(Seq<char>, ExtraValueView)>
    decreases fs.len(),
{
    if fs.len() == 0 {
        seq![]
    } else {
        insert_member(sorted_members(fs.drop_last()), fs.last())
    }
}

/// An `extra` object as serde_json writes its map: `{`, the members in key order
/// (see [`sorted_members`]), `}`.
pub open spec fn extra_json(fs: Seq<(Seq<char>, ExtraValueView)>) -> Seq<char> {
    "{"@ + members_json(sorted_members(fs)) + "}"@
}

/// Whether the members' keys strictly increase.
pub open spec fn keys_increasing(ms: Seq<(Seq<char>, ExtraValueView)>) -> bool {
    forall|i: int| 0 <= i < ms.len() - 1 ==> #[trigger] key_lt(ms[i].0, ms[i + 1].0)
}

proof fn lemma_key_lt_total_from(a: Seq<char>, b: Seq<char>, i: nat)
    requires
        i <= a.len(),
        i <= b.len(),
        a.subrange(i as int, a.len() as int) != b.subrange(i as int, b.len() as int),
    ensures
        key_lt_from(a, b, i) || key_lt_from(b, a, i),
    decreases a.len() - i,
{
    if i < a.len() && i < b.len() && a[i as int] == b[i as int] {
        assert(a.subrange(i as int, a.len() as int) == seq![a[i as int]] + a.subrange(i + 1 as int, a.len() as int));
        assert(b.subrange(i as int, b.len() as int) == seq![b[i as int]] + b.subrange(i + 1 as int, b.len() as int));
        lemma_key_lt_total_from(a, b, i + 1);
    } else if i >= a.len() && i >= b.len() {
        assert(a.subrange(i as int, a.len() as int) =~= b.subrange(i as int, b.len() as int));
    }
}

/// Two different keys are ordered one way or the other.
proof fn lemma_key_lt_total(a: Seq<char>, b: Seq<char>)
    requires
        a != b,
    ensures
        key_lt(a, b) || key_lt(b, a),
{
    assert(a.subrange(0, a.len() as int) == a);
    assert(b.subrange(0, b.len() as int) == b);
    lemma_key_lt_total_from(a, b, 0);
}

proof fn lemma_insert_member_sorted(ms: Seq<(Seq<char>, ExtraValueView)>, f: (Seq<char>, ExtraValueView))
    requires
        keys_increasing(ms),
    ensures
        keys_increasing(insert_member(ms, f)),
        insert_member(ms, f).len() > 0,
        insert_member(ms, f)[0].0 == f.0 || (ms.len() > 0 && insert_member(ms, f)[0].0 == ms[0].0),
    decreases ms.len(),
{
    let r = insert_member(ms, f);
    if ms.len() == 0 {
    } else if ms[0].0 == f.0 {
        assert forall|i: int| 0 <= i < r.len() - 1 implies #[trigger] key_lt(r[i].0, r[i + 1].0) by {
            if i == 0 {
                assert(key_lt(ms[0].0, ms[1].0));
            } else {
                assert(key_lt(ms[i].0, ms[i + 1].0));
            }
        }
    } else if key_lt(f.0, ms[0].0) {
        assert forall|i: int| 0 <= i < r.len() - 1 implies #[trigger] key_lt(r[i].0, r[i + 1].0) by {
            if i > 0 {
                let k = i - 1;
                assert(key_lt(ms[k].0, ms[k + 1].0));
                assert(r[i] == ms[k] && r[i + 1] == ms[k + 1]);
            }
        }
    } else {
        lemma_key_lt_total(f.0, ms[0].0);
        let rest = ms.skip(1);
        assert forall|i: int| 0 <= i < rest.len() - 1 implies #[trigger] key_lt(rest[i].0, rest[i + 1].0) by {
            let k = i + 1;
            assert(key_lt(ms[k].0, ms[k + 1].0));
            assert(rest[i] == ms[k] && rest[i + 1] == ms[k + 1]);
        }
        lemma_insert_member_sorted(rest, f);
        let t = insert_member(rest, f);
        assert(r == seq![ms[0]] + t);
        assert forall|i: int| 0 <= i < r.len() - 1 implies #[trigger] key_lt(r[i].0, r[i + 1].0) by {
            if i == 0 {
                if t[0].0 != f.0 {
                    assert(key_lt(ms[0].0, ms[1].0));
                }
            } else {
                let k = i - 1;
                assert(r[i] == t[k] && r[i + 1] == t[k + 1]);
                assert(key_lt(t[k].0, t[k + 1].0));
            }
        }
    }
}

/// The members of an `extra` object come out with their keys strictly increasing:
/// sorted, each key once.
pub proof fn lemma_extra_members_sorted(fs: Seq<(Seq<char>, ExtraValueView)>)
    ensures
        keys_increasing(sorted_members(fs)),
    decreases fs.len(),
{
    if fs.len() > 0 {
        lemma_extra_members_sorted(fs.drop_last());
        lemma_insert_member_sorted(sorted_members(fs.drop_last()), fs.last());
    }
}

/// The line `audit.log` and the audit server get for an event, as serde_json
/// writes the object `{action, actor, device_id, session_id, ts, result, extra}`:
/// compact, keys in order.
pub open spec fn audit_line_text(e: AuditEventView, device_id: Seq<char>, ts: i64) -> Seq<char> {
    "{\"action\":"@ + json_string_literal(e.action) + ",\"actor\":"@ + json_string_literal(e.actor)
        + ",\"device_id\":"@ + json_string_literal(device_id) + ",\"extra\":"@ + extra_json(e.extra)
        + ",\"result\":"@ + json_string_literal(e.result) + ",\"session_id\":"@ + decimal(
        e.session_id as nat,
    ) + ",\"ts\":"@ + signed_decimal(ts as int) + "}"@
}

fn push_json_string(v: &mut Vec<char>, s: &str)
    ensures
        final(v)@ == old(v)@ + json_string_literal(s@),
{
    let lit = json_string(s);
    push_str(v, lit.as_str());
}

fn push_member(v: &mut Vec<char>, f: &ExtraField)
    ensures
        final(v)@ == old(v)@ + member_json((f.key@, f.value@)),
{
    push_json_string(v, f.key.as_str());
    push_str(v, ":");
    match &f.value {
        ExtraValue::Text(t) => push_json_string(v, t.as_str()),
        ExtraValue::Flag(b) => if *b {
            push_str(v, "true");
        } else {
            push_str(v, "false");
        },
        ExtraValue::Count(n) => {
            let d = decimal_chars(*n);
            push_all(v, &d);
        },
    }
}

fn key_less(a: &Vec<char>, b: &Vec<char>) -> (r: bool)
    ensures
        r == key_lt(a@, b@),
{
    let mut i: usize = 0;
    while i < a.len() && i < b.len() && a[i] == b[i]
        invariant
            i <= a.len(),
            i <= b.len(),
            key_lt(a@, b@) == key_lt_from(a@, b@, i as nat),
        decreases a.len() - i,
    {
        i = i + 1;
    }
    if i == a.len() {
        i < b.len()
    } else if i == b.len() {
        false
    } else {
        a[i] < b[i]
    }
}

/// The fields at positions `idx`, in that order.
pub open spec fn fields_at(fs: Seq<(Seq<char>, ExtraValueView)>, idx: Seq<usize>) -> Seq<(Seq<char>, ExtraValueView)> {
    idx.map_values(|i: usize| fs[i as int])
}

/// The positions of the fields in the order their members are written, see
/// [`sorted_members`].
fn member_order(fields: &Vec<ExtraField>) -> (idx: Vec<usize>)
    ensures
        forall|j: int| 0 <= j < idx.len() ==> #[trigger] idx@[j] < fields.len(),
        fields_at(extra_view(fields@), idx@) == sorted_members(extra_view(fields@)),
{
    let ghost fs = extra_view(fields@);
    let mut idx: Vec<usize> = Vec::new();
    let mut k: usize = 0;
    while k < fields.len()
        invariant
            k <= fields.len(),
            fs == extra_view(fields@),
            forall|j: int| 0 <= j < idx.len() ==> #[trigger] idx@[j] < k,
            fields_at(fs, idx@) == sorted_members(fs.take(k as int)),
        decreases fields.len() - k,
    {
        let ghost ms = fields_at(fs, idx@);
        let ghost f = fs[k as int];
        let ghost idx0 = idx@;
        assert(fs.take(k + 1).drop_last() == fs.take(k as int));
        assert(fs.take(k + 1).last() == f);
        assert(sorted_members(fs.take(k + 1)) == insert_member(ms, f));
        let kc = chars_of(fields[k].key.as_str());
        let mut j: usize = 0;
        assert(ms.take(0) + ms.skip(0) == ms);
        loop
            invariant_except_break
                j <= idx.len(),
                idx@ == idx0,
                insert_member(ms, f) == ms.take(j as int) + insert_member(ms.skip(j as int), f),
            invariant
                k < fields.len(),
                fs == extra_view(fields@),
                ms == fields_at(fs, idx0),
                f == fs[k as int],
                kc@ == f.0,
                forall|i: int| 0 <= i < idx0.len() ==> #[trigger] idx0[i] < k,
            ensures
                fields_at(fs, idx@) == insert_member(ms, f),
                forall|i: int| 0 <= i < idx.len() ==> #[trigger] idx@[i] < k + 1,
            decreases idx.len() - j,
        {
            let ghost tail = ms.skip(j as int);
            if j == idx.len() {
                assert(tail.len() == 0);
                idx.push(k);
                assert(fields_at(fs, idx@) =~= ms.take(j as int) + seq![f]);
                break;
            }
            let p = idx[j];
            assert(tail[0] == fs[p as int]);
            let cj = chars_of(fields[p].key.as_str());
            if crate::text::chars_eq(&cj, &kc) {
                idx.set(j, k);
                assert(fields_at(fs, idx@) =~= ms.take(j as int) + (seq![f] + tail.skip(1)));
                break;
            }
            if key_less(&kc, &cj) {
                idx.insert(j, k);
                assert(fields_at(fs, idx@) =~= ms.take(j as int) + (seq![f] + tail));
                break;
            }
            assert(tail.skip(1) == ms.skip(j + 1));
            assert(ms.take(j as int) + seq![tail[0]] == ms.take(j + 1));
            assert(ms.take(j as int) + (seq![tail[0]] + insert_member(tail.skip(1), f)) == ms.take(
                j + 1,
            ) + insert_member(ms.skip(j + 1), f));
            j = j + 1;
        }
        k = k + 1;
    }
    assert(fs.take(fields.len() as int) == fs);
    idx
}

/// Append an `extra` object, see [`extra_json`].
pub(crate) fn push_extra(v: &mut Vec<char>, fields: &Vec<ExtraField>)
    ensures
        final(v)@ == old(v)@ + extra_json(extra_view(fields@)),
{
    let ghost start = v@;
    let ghost fs = extra_view(fields@);
    let idx = member_order(fields);
    let ghost ms = sorted_members(fs);
    push_str(v, "{");
    let mut i: usize = 0;
    while i < idx.len()
        invariant
            i <= idx.len(),
            fs == extra_view(fields@),
            forall|j: int| 0 <= j < idx.len() ==> #[trigger] idx@[j] < fields.len(),
            fields_at(fs, idx@) == ms,
            v@ == start + "{"@ + members_json(ms.take(i as int)),
        decreases idx.len() - i,
    {
        assert(ms.take(i + 1).drop_last() == ms.take(i as int));
        assert(ms.take(i + 1).last() == ms[i as int]);
        assert(ms[i as int] == fs[idx@[i as int] as int]);
        if i > 0 {
            push_str(v, ",");
        }
        push_member(v, &fields[idx[i]]);
        proof {
            if i == 0 {
                assert(ms.take(1)[0] == ms[0]);
                assert(members_json(ms.take(0)) =~= Seq::<char>::empty());
            }
        }
        assert(v@ =~= start + "{"@ + members_json(ms.take(i + 1)));
        i = i + 1;
    }
    assert(ms.take(idx.len() as int) == ms);
    push_str(v, "}");
    assert(v@ =~= start + extra_json(fs));
}

/// Append a signed decimal, see [`signed_decimal`].
pub(crate) fn push_signed(v: &mut Vec<char>, n: i64)
    ensures
        final(v)@ == old(v)@ + signed_decimal(n as int),
{
    if n < 0 {
        push_str(v, "-");
        let m: u64 = (0 - (n as i128)) as u64;
        let d = decimal_chars(m);
        push_all(v, &d);
    } else {
        let d = decimal_chars(n as u64);
        push_all(v, &d);
    }
}

/// The JSON line of an event for `audit.log` and the audit server, with this
/// device's id and the time, see [`audit_line_text`].
pub fn audit_line(event: &AuditEvent, device_id: &str, ts: i64) -> (s: String)
    ensures
        s@ == audit_line_text(event@, device_id@, ts),
{
    let mut v: Vec<char> = Vec::new();
    push_str(&mut v, "{\"action\":");
    push_json_string(&mut v, event.action.as_str());
    push_str(&mut v, ",\"actor\":");
    push_json_string(&mut v, event.actor.as_str());
    push_str(&mut v, ",\"device_id\":");
    push_json_string(&mut v, device_id);
    push_str(&mut v, ",\"extra\":");
    push_extra(&mut v, &event.extra);
    push_str(&mut v, ",\"result\":");
    push_json_string(&mut v, event.result.as_str());
    push_str(&mut v, ",\"session_id\":");
    let d = decimal_chars(event.session_id);
    push_all(&mut v, &d);
    push_str(&mut v, ",\"ts\":");
    push_signed(&mut v, ts);
    push_str(&mut v, "}");
    assert(v@ =~= audit_line_text(event@, device_id@, ts));
    string_from(&v)
}

} // verus!
