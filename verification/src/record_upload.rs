//! Uploading this machine's session recordings to the audit server.
//!
//! The recorder reports the path when it starts a file, a frame whenever it
//! writes one, and a tail when it closes the file; the bytes go up as `new`,
//! `part` and `tail` requests to `<origin of audit-server-url>/api/record`. In
//! `chunked` mode (the default) the file is streamed while it is written, so a
//! session cut off half way loses at most the last second; in `whole` mode it goes
//! up in one part once closed. Every request is retried; a file that fails is given
//! up on, left on this machine unmarked, and the audit trail says so. Uploaded
//! files get a `.uploaded` marker and are removed three days later.
//!
//! The requests, file reads and sleeps are the caller's; what to send, when, and
//! what it means is decided here.
use crate::audit::{count_field, extra_view, record, text_field, AuditEvent, AuditEventView, ExtraField, ExtraValueView};
use crate::text::{
    chars_eq_str, chars_of, decimal, decimal_string, owned, parse_usize, push_str, slice_of,
    string_from, trim_bounds, trim_seq, all_digits, digits_value, all_ascii_digits,
};
use vstd::prelude::*;

verus! {

broadcast use vstd::string::group_string_axioms;

/// `chunked` (the default) or `whole`; anything else is read as `chunked`.
pub const OPTION_RECORD_UPLOAD_MODE: &'static str = "record-upload-mode";

/// Attempts per request.
pub const RETRY: u32 = 3;

/// The wait before the next attempt, in milliseconds, multiplied by the attempt
/// number.
pub const RETRY_DELAY_MS: u64 = 500;

/// In `chunked` mode a part is sent once this much time has passed since the last
/// one (milliseconds)...
pub const SHOULD_SEND_TIME_MS: u64 = 1000;

/// ...or once this many bytes have accumulated, whichever comes first.
pub const SHOULD_SEND_SIZE: u64 = 1048576;

/// Bytes of the file head sent with `type=tail`.
pub const MAX_HEADER_LEN: usize = 1024;

/// How many bytes of a file of `file_len` bytes go with the tail: its head, at
/// most [`MAX_HEADER_LEN`] bytes, the whole file when it is shorter.
pub fn tail_len(file_len: u64) -> (n: usize)
    ensures
        n == if file_len < MAX_HEADER_LEN { file_len } else { MAX_HEADER_LEN as u64 },
{
    if file_len < MAX_HEADER_LEN as u64 {
        file_len as usize
    } else {
        MAX_HEADER_LEN
    }
}

/// Suffix of the marker written next to an uploaded recording.
pub const UPLOADED_SUFFIX: &'static str = ".uploaded";

/// Seconds an uploaded recording is kept on this machine: three days.
pub const KEEP_UPLOADED_SECS: u64 = 259200;

/// Whether the upload mode streams the file: anything but `whole`.
pub fn is_chunked(mode: &str) -> (r: bool)
    ensures
        r == (mode@ != "whole"@),
{
    !chars_eq_str(&chars_of(mode), "whole")
}

/// The recording endpoint for an audit-server URL: its origin (scheme, if any,
/// and authority, up to the first `/` after `://`) followed by `/api/record`.
pub open spec fn record_endpoint(url: Seq<char>) -> Seq<char> {
    let after_scheme = match crate::text::find_seq(url, "://"@) {
        Some(i) => i + 3,
        None => 0,
    };
    let rest = url.skip(after_scheme);
    let origin_end = after_scheme + match crate::text::find_char(rest, '/') {
        Some(j) => j,
        None => rest.len() as int,
    };
    url.take(origin_end) + "/api/record"@
}

/// The recording endpoint of the audit server configured as `audit_server_url`;
/// an error when none is configured, and then nothing is uploaded.
pub fn endpoint(audit_server_url: &str) -> (r: Result<String, String>)
    ensures
        audit_server_url@.len() == 0 <==> r is Err,
        r matches Ok(u) ==> u@ == record_endpoint(audit_server_url@),
        r matches Err(e) ==> e@ == crate::audit::AUDIT_SERVER_OPTION@ + " is not set"@,
{
    let url = chars_of(audit_server_url);
    if url.len() == 0 {
        let mut v: Vec<char> = Vec::new();
        push_str(&mut v, crate::audit::AUDIT_SERVER_OPTION);
        push_str(&mut v, " is not set");
        return Err(string_from(&v));
    }
    let sep = chars_of("://");
    proof {
        reveal_strlit("://");
    }
    let after_scheme = match crate::text::find_in(&url, &sep) {
        Some(i) => i + 3,
        None => 0,
    };
    let n = url.len();
    assert(url@.skip(after_scheme as int) == url@.subrange(after_scheme as int, n as int));
    let e = crate::text::find_char_in(&url, '/', after_scheme, n);
    let mut v = slice_of(&url, 0, e);
    assert(v@ == url@.take(e as int));
    push_str(&mut v, "/api/record");
    Ok(string_from(&v))
}

// ---------------------------------------------------------------------------
// Retrying a request
// ---------------------------------------------------------------------------

/// How one attempt at a request went.
pub enum Attempt {
    /// The server answered with this status code; `status` is how it reads
    /// (`404 Not Found`).
    Answered { code: u16, status: String },
    /// The request did not get an answer.
    Failed(String),
}

/// What to do after an attempt.
pub enum RetryStep {
    /// The request went through.
    Done,
    /// Wait this long and try again; `last` is why this attempt failed.
    Wait { millis: u64, last: String },
    /// Give the request up; `last` is why the last attempt failed.
    GiveUp { last: String },
}

/// Why an attempt failed: `http <status>` for a status outside 2xx, else the
/// transport error.
pub open spec fn attempt_error(a: Attempt) -> Seq<char> {
    match a {
        Attempt::Answered { code, status } => "http "@ + status@,
        Attempt::Failed(e) => e@,
    }
}

/// Whether an attempt went through: a 2xx answer.
pub open spec fn attempt_ok(a: Attempt) -> bool {
    match a {
        Attempt::Answered { code, status } => 200 <= code < 300,
        Attempt::Failed(_) => false,
    }
}

/// What to do after attempt number `attempt` (counting from 1) went as `a`: done
/// on success; otherwise wait `attempt` times [`RETRY_DELAY_MS`] and try again, up
/// to [`RETRY`] attempts, after which the request is given up.
pub fn after_attempt(attempt: u32, a: Attempt) -> (r: RetryStep)
    requires
        1 <= attempt <= RETRY,
    ensures
        attempt_ok(a) ==> r is Done,
        !attempt_ok(a) && attempt < RETRY ==> (r matches RetryStep::Wait { millis, last } && millis
            == attempt * RETRY_DELAY_MS && last@ == attempt_error(a)),
        !attempt_ok(a) && attempt == RETRY ==> (r matches RetryStep::GiveUp { last } && last@
            == attempt_error(a)),
{
    let last = match a {
        Attempt::Answered { code, status } => {
            if 200 <= code && code < 300 {
                return RetryStep::Done;
            }
            let mut v: Vec<char> = Vec::new();
            push_str(&mut v, "http ");
            push_str(&mut v, status.as_str());
            string_from(&v)
        },
        Attempt::Failed(e) => e,
    };
    if attempt < RETRY {
        RetryStep::Wait { millis: attempt as u64 * RETRY_DELAY_MS, last }
    } else {
        RetryStep::GiveUp { last }
    }
}

// ---------------------------------------------------------------------------
// The uploader
// ---------------------------------------------------------------------------

/// A path separator on some platform: `/` everywhere, `\\` on Windows.
pub open spec fn is_separator(c: char) -> bool {
    c == '/' || c == '\\'
}

/// The part of `path` after its last `/` or `\\` (all of it when there is none).
pub open spec fn last_component(path: Seq<char>) -> Seq<char>
    decreases path.len(),
{
    if path.len() == 0 || is_separator(path.last()) {
        seq![]
    } else {
        last_component(path.drop_last()).push(path.last())
    }
}

/// Whether `path` has a file name on every platform: it does not start with two
/// separators (a Windows UNC, verbatim or device prefix), a drive (`C:`) is
/// followed by a separator, and the part after its last separator is a name other
/// than `.` and `..`. Unix, which splits at `/` only, then sees a normal last
/// component too.
pub open spec fn file_name_known(path: Seq<char>) -> bool {
    &&& !(path.len() >= 2 && is_separator(path[0]) && is_separator(path[1]))
    &&& (path.len() >= 2 && path[1] == ':') ==> (path.len() >= 3 && is_separator(path[2]))
    &&& last_component(path).len() > 0
    &&& last_component(path) != "."@
    &&& last_component(path) != ".."@
}

/// The part of `path` after its last `/` (all of it when there is none): its final
/// component where `/` is the only separator.
pub open spec fn last_slash_component(path: Seq<char>) -> Seq<char>
    decreases path.len(),
{
    if path.len() == 0 || path.last() == '/' {
        seq![]
    } else {
        last_slash_component(path.drop_last()).push(path.last())
    }
}

/// `Path::new(path).file_name()` as a `String`, when there is one and it is valid
/// UTF-8 (always, for a `&str`).
///
/// Trusted: std documents the file name as the final component of the path when
/// that is a normal one. For the paths of [`file_name_known`], whose final
/// component is normal under the Unix and the Windows rules alike, the contract
/// states that there is one and that it is that final component as one of the two
/// rules splits the path: at `/` and `\\` (Windows) or at `/` only (Unix). The two
/// agree when the path holds no `\\`. Which of them a given machine uses is not
/// stated, and of other paths nothing is stated.
#[verifier::external_body]
fn file_name_of(path: &str) -> (r: Option<String>)
    ensures
        file_name_known(path@) ==> r is Some,
        file_name_known(path@) ==> (r.unwrap()@ == last_component(path@) || r.unwrap()@
            == last_slash_component(path@)),
        file_name_known(path@) && !path@.contains('\\') ==> r.unwrap()@ == last_component(path@),
{
    std::path::Path::new(path).file_name().and_then(|f| f.to_str()).map(|f| f.to_owned())
}

/// The upload of one session's recordings.
pub struct Uploader {
    pub session_id: u64,
    filepath: String,
    filename: String,
    /// Bytes the server has accepted.
    sent: u64,
    running: bool,
    /// When the last part went, in milliseconds on the caller's clock.
    last_send_ms: u64,
}

pub struct UploaderView {
    pub session_id: u64,
    pub filepath: Seq<char>,
    pub filename: Seq<char>,
    pub sent: u64,
    pub running: bool,
    pub last_send_ms: u64,
}

impl View for Uploader {
    type V = UploaderView;

    closed spec fn view(&self) -> UploaderView {
        UploaderView {
            session_id: self.session_id,
            filepath: self.filepath@,
            filename: self.filename@,
            sent: self.sent,
            running: self.running,
            last_send_ms: self.last_send_ms,
        }
    }
}

/// The kinds of request.
#[derive(PartialEq, Eq, Structural, Clone, Copy, Debug)]
pub enum RequestKind {
    /// Create the file; empty body.
    New,
    /// Append bytes written since the last part; body the bytes.
    Part,
    /// The file is complete; body its head.
    Tail,
    /// The recorder dropped the file; empty body.
    Remove,
}

pub open spec fn kind_text(k: RequestKind) -> Seq<char> {
    match k {
        RequestKind::New => "new"@,
        RequestKind::Part => "part"@,
        RequestKind::Tail => "tail"@,
        RequestKind::Remove => "remove"@,
    }
}

/// Each kind of request goes out under its own `type`: `new`, `part`, `tail`
/// (the server closes the recording) and `remove` (the server forgets it), no two
/// kinds alike.
pub proof fn lemma_request_types(a: RequestKind, b: RequestKind)
    ensures
        kind_text(RequestKind::New) == "new"@,
        kind_text(RequestKind::Part) == "part"@,
        kind_text(RequestKind::Tail) == "tail"@,
        kind_text(RequestKind::Remove) == "remove"@,
        kind_text(a) == kind_text(b) ==> a == b,
{
    reveal_strlit("new");
    reveal_strlit("part");
    reveal_strlit("tail");
    reveal_strlit("remove");
    if a != b {
        assert(kind_text(a) != kind_text(b)) by {
            if kind_text(a).len() == kind_text(b).len() {
                assert(kind_text(a)[0] != kind_text(b)[0]);
            }
        }
    }
}

/// One query parameter.
pub struct QueryPair {
    pub key: String,
    pub value: String,
}

pub open spec fn query_view(q: Seq<QueryPair>) -> Seq<(Seq<char>, Seq<char>)> {
    q.map_values(|p: QueryPair| (p.key@, p.value@))
}

fn pair(key: &str, value: String) -> (p: QueryPair)
    ensures
        p.key@ == key@,
        p.value@ == value@,
{
    QueryPair { key: owned(key), value }
}

/// The parameters every request carries: its type, the file, this device and the
/// session.
pub open spec fn base_query(kind: RequestKind, filename: Seq<char>, device_id: Seq<char>, session_id: u64) -> Seq<(Seq<char>, Seq<char>)> {
    seq![
        ("type"@, kind_text(kind)),
        ("file"@, filename),
        ("device_id"@, device_id),
        ("session_id"@, decimal(session_id as nat)),
    ]
}

impl Uploader {
    /// The uploader of the recordings of `session_id`, before any file.
    pub fn new(session_id: u64, now_ms: u64) -> (u: Uploader)
        ensures
            u@ == (UploaderView {
                session_id,
                filepath: seq![],
                filename: seq![],
                sent: 0,
                running: false,
                last_send_ms: now_ms,
            }),
    {
        Uploader {
            session_id,
            filepath: string_from(&Vec::new()),
            filename: string_from(&Vec::new()),
            sent: 0,
            running: false,
            last_send_ms: now_ms,
        }
    }

    pub fn filename(&self) -> (r: String)
        ensures
            r@ == self@.filename,
    {
        owned(self.filename.as_str())
    }

    pub fn filepath(&self) -> (r: String)
        ensures
            r@ == self@.filepath,
    {
        owned(self.filepath.as_str())
    }

    pub fn sent(&self) -> (r: u64)
        ensures
            r == self@.sent,
    {
        self.sent
    }

    pub fn running(&self) -> (r: bool)
        ensures
            r == self@.running,
    {
        self.running
    }

    /// The parameters of a request of `kind` for the current file.
    pub fn query(&self, kind: RequestKind, device_id: &str) -> (q: Vec<QueryPair>)
        ensures
            query_view(q@) == base_query(kind, self@.filename, device_id@, self@.session_id),
            q@.len() == 4,
            q@[0].key@ == "type"@,
            q@[0].value@ == match kind {
                RequestKind::New => "new"@,
                RequestKind::Part => "part"@,
                RequestKind::Tail => "tail"@,
                RequestKind::Remove => "remove"@,
            },
    {
        let typ = match kind {
            RequestKind::New => "new",
            RequestKind::Part => "part",
            RequestKind::Tail => "tail",
            RequestKind::Remove => "remove",
        };
        let mut q: Vec<QueryPair> = Vec::new();
        q.push(pair("type", owned(typ)));
        q.push(pair("file", owned(self.filename.as_str())));
        q.push(pair("device_id", owned(device_id)));
        q.push(pair("session_id", decimal_string(self.session_id)));
        assert(query_view(q@) =~= base_query(kind, self@.filename, device_id@, self@.session_id));
        q
    }

    /// The parameters of a part of `length` bytes at `offset`.
    pub fn part_query(&self, device_id: &str, offset: u64, length: u64) -> (q: Vec<QueryPair>)
        ensures
            query_view(q@) == base_query(RequestKind::Part, self@.filename, device_id@, self@.session_id)
                + seq![("offset"@, decimal(offset as nat)), ("length"@, decimal(length as nat))],
    {
        let mut q = self.query(RequestKind::Part, device_id);
        let ghost before = query_view(q@);
        q.push(pair("offset", decimal_string(offset)));
        q.push(pair("length", decimal_string(length)));
        assert(query_view(q@) =~= before + seq![("offset"@, decimal(offset as nat)), ("length"@, decimal(length as nat))]);
        q
    }

    /// The recorder started writing `path`: upload it. Answers whether the `new`
    /// request is to be sent now (in `chunked` mode). A path without a file name is
    /// ignored.
    pub fn on_new_file(&mut self, path: &str, chunked: bool, now_ms: u64) -> (send_new: bool)
        ensures
            (final(self)@ == old(self)@ && !send_new) || (final(self)@.running && final(self)@.filepath
                == path@ && final(self)@.sent == 0 && final(self)@.session_id == old(self)@.session_id
                && final(self)@.last_send_ms == now_ms && send_new == chunked),
            file_name_known(path@) ==> final(self)@.running && final(self)@.filepath == path@
                && final(self)@.sent == 0 && final(self)@.session_id == old(self)@.session_id
                && final(self)@.last_send_ms == now_ms && send_new == chunked,
            file_name_known(path@) ==> (final(self)@.filename == last_component(path@)
                || final(self)@.filename == last_slash_component(path@)),
            file_name_known(path@) && !path@.contains('\\') ==> final(self)@.filename
                == last_component(path@),
    {
        let name = file_name_of(path);
        self.start_file(path, name, chunked, now_ms)
    }

    /// The recorder started writing `path`, whose file name is `name` (none when it
    /// has none): from here on that file is the one uploaded, from its first byte,
    /// and in `chunked` mode its `new` request is sent at once.
    pub fn start_file(&mut self, path: &str, name: Option<String>, chunked: bool, now_ms: u64) -> (send_new: bool)
        ensures
            match name {
                Some(n) => final(self)@ == (UploaderView {
                    session_id: old(self)@.session_id,
                    filepath: path@,
                    filename: n@,
                    sent: 0,
                    running: true,
                    last_send_ms: now_ms,
                }) && send_new == chunked,
                None => final(self)@ == old(self)@ && !send_new,
            },
    {
        match name {
            Some(n) => {
                self.filepath = owned(path);
                self.filename = n;
                self.sent = 0;
                self.running = true;
                self.last_send_ms = now_ms;
                chunked
            },
            None => false,
        }
    }

    /// A frame was written: whether to measure the file for a part, that is, while
    /// uploading in `chunked` mode (see [`Uploader::send_part`]).
    pub fn on_frame(&self, chunked: bool) -> (r: bool)
        ensures
            r == (self@.running && chunked),
    {
        self.running && chunked
    }

    /// The offset of the part to send at `now_ms`, the file being `file_len` bytes
    /// long: the bytes written since the last part go once [`SHOULD_SEND_TIME_MS`]
    /// have passed since it, or once [`SHOULD_SEND_SIZE`] bytes have accumulated,
    /// whichever comes first, and with `flush` (the last part) at once. Nothing when
    /// nothing new was written.
    pub fn send_part(&self, flush: bool, file_len: u64, now_ms: u64) -> (r: Option<u64>)
        ensures
            r is Some <==> file_len > self@.sent && (flush || now_ms - self@.last_send_ms
                >= SHOULD_SEND_TIME_MS || file_len - self@.sent >= SHOULD_SEND_SIZE),
            r matches Some(offset) ==> offset == self@.sent,
    {
        if file_len <= self.sent {
            return None;
        }
        let due_by_time = now_ms >= self.last_send_ms && now_ms - self.last_send_ms >= SHOULD_SEND_TIME_MS;
        if flush || due_by_time || file_len - self.sent >= SHOULD_SEND_SIZE {
            Some(self.sent)
        } else {
            None
        }
    }

    /// A part went through, the file being `file_len` bytes when it was measured.
    pub fn part_sent(&mut self, file_len: u64, now_ms: u64)
        ensures
            final(self)@ == (UploaderView { sent: file_len, last_send_ms: now_ms, ..old(self)@ }),
    {
        self.sent = file_len;
        self.last_send_ms = now_ms;
    }

    /// In `whole` mode the file went up as one part of `file_len` bytes.
    pub fn whole_sent(&mut self, file_len: u64)
        ensures
            final(self)@ == (UploaderView { sent: file_len, ..old(self)@ }),
    {
        self.sent = file_len;
    }

    /// A request failed for good: the file is given up on and stays on this
    /// machine, unmarked, and `record.upload.fail` says which step failed. The
    /// `extra` fields are in key order, as the audit line writes them.
    pub fn give_up(&mut self, step: &str, error: &str) -> (e: AuditEvent)
        ensures
            final(self)@ == (UploaderView { running: false, ..old(self)@ }),
            e@ == (AuditEventView {
                action: "record.upload.fail"@,
                actor: "operator"@,
                session_id: old(self)@.session_id,
                result: "err"@,
                extra: seq![
                    ("bytes"@, ExtraValueView::Count(old(self)@.sent)),
                    ("error"@, ExtraValueView::Text(error@)),
                    ("file"@, ExtraValueView::Text(old(self)@.filename)),
                    ("step"@, ExtraValueView::Text(step@)),
                ],
            }),
    {
        self.running = false;
        let mut extra: Vec<ExtraField> = Vec::new();
        extra.push(count_field("bytes", self.sent));
        extra.push(text_field("error", error));
        extra.push(text_field("file", self.filename.as_str()));
        extra.push(text_field("step", step));
        assert(extra_view(extra@) =~= seq![
            ("bytes"@, ExtraValueView::Count(self@.sent)),
            ("error"@, ExtraValueView::Text(error@)),
            ("file"@, ExtraValueView::Text(self@.filename)),
            ("step"@, ExtraValueView::Text(step@)),
        ]);
        record("record.upload.fail", "operator", self.session_id, "err", extra)
    }

    /// The recorder closed the file: whether to finish the upload (send what is
    /// left, then the tail). Only a running upload is finished, and only once.
    pub fn on_tail(&mut self) -> (finish: bool)
        ensures
            finish == old(self)@.running,
            final(self)@ == (UploaderView { running: false, ..old(self)@ }),
    {
        let r = self.running;
        self.running = false;
        r
    }

    /// The requests that finish an upload, in order, each sent only once the one
    /// before went through: in `chunked` mode what is left as a last part, then the
    /// tail; in `whole` mode the `new` request, the whole file as one part, then
    /// the tail.
    pub fn finish_requests(&self, chunked: bool) -> (r: Vec<RequestKind>)
        ensures
            r@ == if chunked {
                seq![RequestKind::Part, RequestKind::Tail]
            } else {
                seq![RequestKind::New, RequestKind::Part, RequestKind::Tail]
            },
    {
        let mut r: Vec<RequestKind> = Vec::new();
        if !chunked {
            r.push(RequestKind::New);
        }
        r.push(RequestKind::Part);
        r.push(RequestKind::Tail);
        r
    }

    /// How finishing went, with the time it ended (seconds since the epoch): on
    /// success the marker to write next to the recording (its path and contents,
    /// see [`Uploader::mark_uploaded`]) and `record.upload.done` with the bytes
    /// sent; on failure no marker - the recording stays, unmarked, and cleanup
    /// never touches it - and `record.upload.fail` with the error.
    pub fn finished(&self, outcome: &Result<(), String>, now_secs: u64) -> (r: (AuditEvent, Option<(String, String)>))
        ensures
            match outcome {
                Ok(_) => {
                    &&& r.0@ == (AuditEventView {
                        action: "record.upload.done"@,
                        actor: "operator"@,
                        session_id: self@.session_id,
                        result: "ok"@,
                        extra: seq![
                            ("bytes"@, ExtraValueView::Count(self@.sent)),
                            ("file"@, ExtraValueView::Text(self@.filename)),
                        ],
                    })
                    &&& r.1 matches Some(m) && m.0@ == self@.filepath + UPLOADED_SUFFIX@ && m.1@
                        == decimal(now_secs as nat)
                },
                Err(err) => {
                    &&& r.0@ == (AuditEventView {
                        action: "record.upload.fail"@,
                        actor: "operator"@,
                        session_id: self@.session_id,
                        result: "err"@,
                        extra: seq![
                            ("bytes"@, ExtraValueView::Count(self@.sent)),
                            ("error"@, ExtraValueView::Text(err@)),
                            ("file"@, ExtraValueView::Text(self@.filename)),
                        ],
                    })
                    &&& r.1 is None
                },
            },
    {
        let mut extra: Vec<ExtraField> = Vec::new();
        extra.push(count_field("bytes", self.sent));
        match outcome {
            Ok(_) => {
                extra.push(text_field("file", self.filename.as_str()));
                assert(extra_view(extra@) =~= seq![
                    ("bytes"@, ExtraValueView::Count(self@.sent)),
                    ("file"@, ExtraValueView::Text(self@.filename)),
                ]);
                let e = record("record.upload.done", "operator", self.session_id, "ok", extra);
                (e, Some(self.mark_uploaded(now_secs)))
            },
            Err(err) => {
                extra.push(text_field("error", err.as_str()));
                extra.push(text_field("file", self.filename.as_str()));
                assert(extra_view(extra@) =~= seq![
                    ("bytes"@, ExtraValueView::Count(self@.sent)),
                    ("error"@, ExtraValueView::Text(err@)),
                    ("file"@, ExtraValueView::Text(self@.filename)),
                ]);
                (record("record.upload.fail", "operator", self.session_id, "err", extra), None)
            },
        }
    }

    /// The recorder dropped a file too short to keep: whether to tell the server to
    /// forget it too (a running upload in `chunked` mode; in `whole` mode nothing
    /// was sent). Either way the upload stops.
    pub fn on_remove(&mut self, chunked: bool) -> (send_remove: bool)
        ensures
            send_remove == (old(self)@.running && chunked),
            final(self)@ == (UploaderView { running: false, ..old(self)@ }),
    {
        let r = self.running;
        self.running = false;
        r && chunked
    }

    /// The marker written next to the recording once uploaded, and what it holds:
    /// the upload time in seconds.
    pub fn mark_uploaded(&self, now_secs: u64) -> (r: (String, String))
        ensures
            r.0@ == self@.filepath + UPLOADED_SUFFIX@,
            r.1@ == decimal(now_secs as nat),
    {
        let mut v = chars_of(self.filepath.as_str());
        push_str(&mut v, UPLOADED_SUFFIX);
        (string_from(&v), decimal_string(now_secs))
    }
}

// ---------------------------------------------------------------------------
// Cleanup
// ---------------------------------------------------------------------------

/// Whether `s` ends with `t`.
pub open spec fn ends_with(s: Seq<char>, t: Seq<char>) -> bool {
    t.len() <= s.len() && s.skip(s.len() - t.len()) == t
}

fn ends_with_str(s: &Vec<char>, t: &str) -> (r: bool)
    ensures
        r == ends_with(s@, t@),
{
    let tc = chars_of(t);
    if tc.len() > s.len() {
        return false;
    }
    let start = s.len() - tc.len();
    let tail = slice_of(s, start, s.len());
    assert(tail@ == s@.skip(start as int));
    crate::text::chars_eq(&tail, &tc)
}

/// Whether a directory entry named `file_name` is an upload marker.
pub fn is_marker_name(file_name: &str) -> (r: bool)
    ensures
        r == ends_with(file_name@, UPLOADED_SUFFIX@),
{
    ends_with_str(&chars_of(file_name), UPLOADED_SUFFIX)
}

/// A directory entry, as far as cleanup cares: its path, its file name when that
/// is valid UTF-8, and, for a marker, what it holds when it could be read.
pub struct DirEntry {
    pub path: String,
    pub file_name: Option<String>,
    pub contents: Option<String>,
}

/// What to remove for one expired marker: the recording first, then, if that
/// worked, the marker.
pub struct Removal {
    pub recording: String,
    pub marker: String,
}

/// Whether the time a marker holds is one the system clock can represent: a
/// marker whose contents read as a `u64` above `i64::MAX` seconds cannot be turned
/// into a time, and cleanup is not asked to handle it.
pub open spec fn marker_time_representable(contents: Option<Seq<char>>) -> bool {
    match contents {
        Some(c) => match crate::text::unsigned_value(trim_seq(c)) {
            Some(t) => t > u64::MAX || t <= i64::MAX,
            None => true,
        },
        None => true,
    }
}

/// Whether the time a marker holds is one the system clock can represent, see
/// [`marker_time_representable`].
pub fn marker_time_ok(contents: &Option<String>) -> (r: bool)
    ensures
        r == marker_time_representable(match contents { Some(c) => Some(c@), None => None }),
{
    match contents {
        Some(c) => {
            let v = chars_of(c.as_str());
            let (a, b) = trim_bounds(&v, 0, v.len());
            assert(v@.subrange(0, v.len() as int) == v@);
            match parse_u64_in(&v, a, b) {
                Some(t) => t <= i64::MAX as u64,
                None => {
                    true
                },
            }
        },
        None => true,
    }
}

/// Whether a marker's recording is due for removal: the marker reads as an upload
/// time at least [`KEEP_UPLOADED_SECS`] before `now_secs`. A marker that does not
/// read, or is from the future, keeps its recording.
pub open spec fn marker_expired(contents: Option<Seq<char>>, now_secs: u64) -> bool {
    match contents {
        Some(c) => match crate::text::unsigned_value(trim_seq(c)) {
            Some(t) => t <= u64::MAX && now_secs >= t + KEEP_UPLOADED_SECS,
            None => false,
        },
        None => false,
    }
}

/// The removals for the entries of the recording directory at `now_secs`: for each
/// entry whose name ends with [`UPLOADED_SUFFIX`] and whose marker has expired, the
/// recording (the marker's path without the suffix) and the marker. Recordings
/// without a marker - never uploaded, or recorded by hand - are never touched.
pub open spec fn removals(entries: Seq<(Seq<char>, Option<Seq<char>>, Option<Seq<char>>)>, now_secs: u64) -> Seq<(Seq<char>, Seq<char>)>
    decreases entries.len(),
{
    if entries.len() == 0 {
        seq![]
    } else {
        let rest = removals(entries.drop_last(), now_secs);
        let (path, name, contents) = entries.last();
        if name matches Some(n) && ends_with(n, UPLOADED_SUFFIX@) && ends_with(path, UPLOADED_SUFFIX@)
            && marker_expired(contents, now_secs) {
            rest.push((path.take(path.len() - UPLOADED_SUFFIX@.len()), path))
        } else {
            rest
        }
    }
}

pub open spec fn entries_view(es: Seq<DirEntry>) -> Seq<(Seq<char>, Option<Seq<char>>, Option<Seq<char>>)> {
    es.map_values(|e: DirEntry| (e.path@, match e.file_name { Some(n) => Some(n@), None => None }, match e.contents { Some(c) => Some(c@), None => None }))
}

pub open spec fn removals_view(rs: Seq<Removal>) -> Seq<(Seq<char>, Seq<char>)> {
    rs.map_values(|r: Removal| (r.recording@, r.marker@))
}

fn expired(contents: &Option<String>, now_secs: u64) -> (r: bool)
    ensures
        r == marker_expired(match contents { Some(c) => Some(c@), None => None }, now_secs),
{
    match contents {
        Some(c) => {
            let v = chars_of(c.as_str());
            let (a, b) = trim_bounds(&v, 0, v.len());
            assert(v@.subrange(0, v.len() as int) == v@);
            match parse_u64_in(&v, a, b) {
                Some(t) => t <= u64::MAX - KEEP_UPLOADED_SECS && now_secs >= t + KEEP_UPLOADED_SECS,
                None => false,
            }
        },
        None => false,
    }
}

/// `s[from..to].parse::<u64>().ok()`.
fn parse_u64_in(s: &Vec<char>, from: usize, to: usize) -> (r: Option<u64>)
    requires
        from <= to <= s.len(),
    ensures
        match crate::text::unsigned_value(s@.subrange(from as int, to as int)) {
            Some(v) => if v <= u64::MAX { r == Some(v as u64) } else { r is None },
            None => r is None,
        },
{
    let ghost t = s@.subrange(from as int, to as int);
    let start = if from < to && s[from] == '+' {
        from + 1
    } else {
        from
    };
    assert(s@.subrange(start as int, to as int) == (if t.len() > 0 && t[0] == '+' {
        t.drop_first()
    } else {
        t
    }));
    if start == to || !all_ascii_digits(s, start, to) {
        return None;
    }
    crate::text::digits_value_up_to(s, start, to, u64::MAX)
}

/// Whether the entry is a marker whose recording is due: its file name and path
/// end with [`UPLOADED_SUFFIX`] and its upload time is old enough.
pub open spec fn due_marker(e: (Seq<char>, Option<Seq<char>>, Option<Seq<char>>), now_secs: u64) -> bool {
    &&& e.1 matches Some(n) && ends_with(n, UPLOADED_SUFFIX@)
    &&& ends_with(e.0, UPLOADED_SUFFIX@)
    &&& marker_expired(e.2, now_secs)
}

/// The positions of the due markers among the entries, in order.
pub open spec fn due_positions(entries: Seq<(Seq<char>, Option<Seq<char>>, Option<Seq<char>>)>, now_secs: u64) -> Seq<int>
    decreases entries.len(),
{
    if entries.len() == 0 {
        seq![]
    } else {
        let rest = due_positions(entries.drop_last(), now_secs);
        if due_marker(entries.last(), now_secs) {
            rest.push(entries.len() - 1)
        } else {
            rest
        }
    }
}

/// Cleanup touches only marked recordings: the `j`-th removal comes from the `j`-th
/// due marker (see [`due_marker`]) and names that marker and the recording beside
/// it, the marker's path without the suffix. Without markers nothing is removed.
pub proof fn lemma_cleanup_touches_only_marked_recordings(
    entries: Seq<(Seq<char>, Option<Seq<char>>, Option<Seq<char>>)>,
    now_secs: u64,
)
    ensures
        removals(entries, now_secs).len() == due_positions(entries, now_secs).len(),
        removals(entries, now_secs).len() <= entries.len(),
        forall|j: int|
            #![trigger due_positions(entries, now_secs)[j]]
            0 <= j < removals(entries, now_secs).len() ==> {
                let i = due_positions(entries, now_secs)[j];
                let path = entries[i].0;
                &&& 0 <= i < entries.len()
                &&& due_marker(entries[i], now_secs)
                &&& removals(entries, now_secs)[j] == (path.take(path.len() - UPLOADED_SUFFIX@.len()), path)
            },
        (forall|i: int| 0 <= i < entries.len() ==> !(#[trigger] entries[i].1 matches Some(n) && ends_with(n, UPLOADED_SUFFIX@)))
            ==> removals(entries, now_secs).len() == 0,
    decreases entries.len(),
{
    if entries.len() > 0 {
        let prev = entries.drop_last();
        lemma_cleanup_touches_only_marked_recordings(prev, now_secs);
        assert forall|i: int| 0 <= i < prev.len() implies #[trigger] prev[i] == entries[i] by {}
        if forall|i: int| 0 <= i < entries.len() ==> !(#[trigger] entries[i].1 matches Some(n) && ends_with(n, UPLOADED_SUFFIX@)) {
            assert forall|i: int| 0 <= i < prev.len() implies !(#[trigger] prev[i].1 matches Some(n) && ends_with(n, UPLOADED_SUFFIX@)) by {
                assert(prev[i] == entries[i]);
            }
            assert(entries[entries.len() - 1] == entries.last());
        }
    }
}

/// Remove recordings that reached the server and have been here long enough, see
/// [`removals`]. Every marker's time must be one the clock can represent.
pub fn cleanup(entries: &Vec<DirEntry>, now_secs: u64) -> (r: Vec<Removal>)
    requires
        forall|i: int|
            0 <= i < entries.len() ==> marker_time_representable(
                #[trigger] entries_view(entries@)[i].2,
            ),
    ensures
        removals_view(r@) == removals(entries_view(entries@), now_secs),
{
    let ghost ev = entries_view(entries@);
    let mut r: Vec<Removal> = Vec::new();
    let mut i: usize = 0;
    while i < entries.len()
        invariant
            i <= entries.len(),
            ev == entries_view(entries@),
            removals_view(r@) == removals(ev.take(i as int), now_secs),
        decreases entries.len() - i,
    {
        let e = &entries[i];
        assert(ev.take(i + 1).drop_last() == ev.take(i as int));
        assert(ev.take(i + 1).last() == ev[i as int]);
        let is_marker = match &e.file_name {
            Some(n) => is_marker_name(n.as_str()),
            None => false,
        };
        let p = chars_of(e.path.as_str());
        if is_marker && ends_with_str(&p, UPLOADED_SUFFIX) && expired(&e.contents, now_secs) {
            let keep = slice_of(&p, 0, p.len() - chars_of(UPLOADED_SUFFIX).len());
            let ghost before = removals_view(r@);
            r.push(Removal { recording: string_from(&keep), marker: owned(e.path.as_str()) });
            assert(removals_view(r@) =~= before.push((p@.take(p@.len() - UPLOADED_SUFFIX@.len()), p@)));
        }
        i = i + 1;
    }
    assert(ev.take(entries.len() as int) == ev);
    r
}

} // verus!
