//! Outbound event notices: the controlled side telling the platform that
//! something wants looking at. A notice is a hint, not a record: no retry, no
//! local copy, and `GET /sessions` stays the source of truth.
use crate::audit::{extra_json, extra_view, push_extra, push_signed, signed_decimal, ExtraField};
use crate::json::{json_string, json_string_literal};
use crate::text::{decimal, decimal_chars, owned, push_all, push_str, string_from};
use vstd::prelude::*;

verus! {

/// Config option holding the event-server URL. Empty means notices are off.
pub const EVENT_SERVER_OPTION: &'static str = "event-server-url";

/// Capacity of the notice queue; a notice that does not fit is dropped.
pub const QUEUE_LEN: usize = 64;

/// Hard cap on delivering one notice, in seconds.
pub const EVENT_TIMEOUT_SECS: u64 = 3;

/// A notice for the platform, without the device id and time the caller adds.
pub struct Notice {
    /// `login.pending`, `control.pending`, `session.open` or `session.close`.
    pub event: String,
    pub session_id: u64,
    pub peer_id: String,
    pub extra: Vec<ExtraField>,
}

/// The notice to send for `event`, or none when no event server is configured:
/// notices are off by default and nothing is sent until one is.
pub fn notify(
    event_server_url: &str,
    event: &str,
    session_id: u64,
    peer_id: &str,
    extra: Vec<ExtraField>,
) -> (r: Option<Notice>)
    ensures
        event_server_url@.len() == 0 <==> r is None,
        r matches Some(n) ==> n.event@ == event@ && n.session_id == session_id && n.peer_id@
            == peer_id@ && extra_view(n.extra@) == extra_view(extra@),
{
    if crate::text::chars_of(event_server_url).len() == 0 {
        return None;
    }
    Some(Notice { event: owned(event), session_id, peer_id: owned(peer_id), extra })
}

/// The body a notice is delivered with, as serde_json writes the object
/// `{event, device_id, session_id, peer_id, ts, extra}`: compact, keys in order,
/// the `extra` object's keys too (see [`crate::audit::sorted_members`]).
pub open spec fn notice_line_text(
    event: Seq<char>,
    device_id: Seq<char>,
    session_id: u64,
    peer_id: Seq<char>,
    ts: i64,
    extra: Seq<(Seq<char>, crate::audit::ExtraValueView)>,
) -> Seq<char> {
    "{\"device_id\":"@ + json_string_literal(device_id) + ",\"event\":"@ + json_string_literal(event)
        + ",\"extra\":"@ + extra_json(extra) + ",\"peer_id\":"@ + json_string_literal(peer_id)
        + ",\"session_id\":"@ + decimal(session_id as nat) + ",\"ts\":"@ + signed_decimal(ts as int)
        + "}"@
}

/// The body of a notice, with this device's id and the time, see
/// [`notice_line_text`].
pub fn notice_line(notice: &Notice, device_id: &str, ts: i64) -> (s: String)
    ensures
        s@ == notice_line_text(
            notice.event@,
            device_id@,
            notice.session_id,
            notice.peer_id@,
            ts,
            extra_view(notice.extra@),
        ),
{
    let mut v: Vec<char> = Vec::new();
    push_str(&mut v, "{\"device_id\":");
    push_str(&mut v, json_string(device_id).as_str());
    push_str(&mut v, ",\"event\":");
    push_str(&mut v, json_string(notice.event.as_str()).as_str());
    push_str(&mut v, ",\"extra\":");
    push_extra(&mut v, &notice.extra);
    push_str(&mut v, ",\"peer_id\":");
    push_str(&mut v, json_string(notice.peer_id.as_str()).as_str());
    push_str(&mut v, ",\"session_id\":");
    let d = decimal_chars(notice.session_id);
    push_all(&mut v, &d);
    push_str(&mut v, ",\"ts\":");
    push_signed(&mut v, ts);
    push_str(&mut v, "}");
    assert(v@ =~= notice_line_text(
        notice.event@,
        device_id@,
        notice.session_id,
        notice.peer_id@,
        ts,
        extra_view(notice.extra@),
    ));
    string_from(&v)
}

} // verus!
