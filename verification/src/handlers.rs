//! What each endpoint makes of its request and of what its outside work
//! reported: the argument checks, the calls handed to the connection manager, the
//! responses and the audit events.
use crate::audit::{
    count_field, extra_view, flag_field, record, text_field, AuditEvent, AuditEventView,
    ExtraField, ExtraValueView,
};
use crate::http_api::{HeaderLine, headers_view};
use crate::json::{
    bool_field, bool_field_value, error_body, error_body_text, id_field, id_field_value,
    json_field, json_field_value, json_string, json_string_literal,
};
use crate::sessions::{ConnectRegistry, ConnectSession, sessions_view};
use crate::text::{
    chars_of, chars_eq_str, decimal, decimal_chars, is_control, is_control_char,
    is_white_space, is_whitespace_char, owned, push_all, push_str, string_from,
};
use crate::url::{query_param, query_param_text};
use vstd::prelude::*;
use vstd::utf8::encode_utf8;

verus! {

broadcast use vstd::string::group_string_axioms;

/// A response: status and JSON body.
pub struct Reply {
    pub status: u16,
    pub body: String,
}

pub struct ReplyView {
    pub status: u16,
    pub body: Seq<char>,
}

impl View for Reply {
    type V = ReplyView;

    open spec fn view(&self) -> ReplyView {
        ReplyView { status: self.status, body: self.body@ }
    }
}

/// A reply with a fixed body.
pub fn reply(status: u16, body: &str) -> (r: Reply)
    ensures
        r@ == (ReplyView { status, body: body@ }),
{
    Reply { status, body: owned(body) }
}

fn reply_chars(status: u16, body: &Vec<char>) -> (r: Reply)
    ensures
        r@ == (ReplyView { status, body: body@ }),
{
    Reply { status, body: string_from(body) }
}

/// An error reply, `{"ok":false,"error":"<reason>"}`.
pub fn error_reply(status: u16, reason: &str) -> (r: Reply)
    ensures
        r@ == (ReplyView { status, body: error_body_text(reason@) }),
{
    Reply { status, body: error_body(reason) }
}

/// `true` or `false`.
pub open spec fn bool_text(b: bool) -> Seq<char> {
    if b {
        "true"@
    } else {
        "false"@
    }
}

fn push_bool(v: &mut Vec<char>, b: bool)
    ensures
        final(v)@ == old(v)@ + bool_text(b),
{
    if b {
        push_str(v, "true");
    } else {
        push_str(v, "false");
    }
}

// ---------------------------------------------------------------------------
// Responses
// ---------------------------------------------------------------------------

fn header_line(name: &str, value: &str) -> (h: HeaderLine)
    ensures
        h.name@ == name@,
        h.value@ == value@,
{
    HeaderLine { name: owned(name), value: owned(value) }
}

/// The headers every response carries: the CORS origin and the private-network
/// allowance when there is an origin to echo, then the JSON content type.
pub open spec fn response_header_list(cors_origin: Seq<char>) -> Seq<(Seq<char>, Seq<char>)> {
    let json = seq![("Content-Type"@, "application/json; charset=utf-8"@)];
    if cors_origin.len() > 0 {
        seq![
            ("Access-Control-Allow-Origin"@, cors_origin),
            ("Access-Control-Allow-Private-Network"@, "true"@),
        ] + json
    } else {
        json
    }
}

/// The headers of a response, see [`response_header_list`].
pub fn respond(cors_origin: &str) -> (r: Vec<HeaderLine>)
    ensures
        headers_view(r@) == response_header_list(cors_origin@),
{
    let mut r: Vec<HeaderLine> = Vec::new();
    if chars_of(cors_origin).len() > 0 {
        r.push(header_line("Access-Control-Allow-Origin", cors_origin));
        r.push(header_line("Access-Control-Allow-Private-Network", "true"));
    }
    r.push(header_line("Content-Type", "application/json; charset=utf-8"));
    assert(headers_view(r@) =~= response_header_list(cors_origin@));
    r
}

/// The headers of a preflight's 204: none without an origin to echo, else the
/// origin, the methods and headers allowed, the private-network allowance and a
/// ten-minute cache.
pub open spec fn preflight_header_list(cors_origin: Seq<char>) -> Seq<(Seq<char>, Seq<char>)> {
    if cors_origin.len() > 0 {
        seq![
            ("Access-Control-Allow-Origin"@, cors_origin),
            ("Access-Control-Allow-Methods"@, "GET, POST, OPTIONS"@),
            ("Access-Control-Allow-Headers"@, "Authorization, Content-Type"@),
            ("Access-Control-Allow-Private-Network"@, "true"@),
            ("Access-Control-Max-Age"@, "600"@),
        ]
    } else {
        seq![]
    }
}

/// The headers of a preflight response, see [`preflight_header_list`].
pub fn preflight_headers(cors_origin: &str) -> (r: Vec<HeaderLine>)
    ensures
        headers_view(r@) == preflight_header_list(cors_origin@),
{
    let mut r: Vec<HeaderLine> = Vec::new();
    if chars_of(cors_origin).len() > 0 {
        r.push(header_line("Access-Control-Allow-Origin", cors_origin));
        r.push(header_line("Access-Control-Allow-Methods", "GET, POST, OPTIONS"));
        r.push(header_line("Access-Control-Allow-Headers", "Authorization, Content-Type"));
        r.push(header_line("Access-Control-Allow-Private-Network", "true"));
        r.push(header_line("Access-Control-Max-Age", "600"));
    }
    assert(headers_view(r@) =~= preflight_header_list(cors_origin@));
    r
}

// ---------------------------------------------------------------------------
// GET /id, GET /status
// ---------------------------------------------------------------------------

/// `GET /id`: `{"id":"<id>"}`.
pub fn id_reply(id: &str) -> (r: Reply)
    ensures
        r@ == (ReplyView { status: 200, body: "{\"id\":\""@ + id@ + "\"}"@ }),
{
    let mut v: Vec<char> = Vec::new();
    push_str(&mut v, "{\"id\":\"");
    push_str(&mut v, id);
    push_str(&mut v, "\"}");
    reply_chars(200, &v)
}

/// The body of `GET /status`.
pub open spec fn status_text(online: bool, assistable: bool, peer: Option<Seq<char>>) -> Seq<char> {
    match peer {
        Some(id) => "{\"online\":"@ + bool_text(online) + ",\"in_session\":true,\"peer_id\":\""@ + id
            + "\",\"assistable\":"@ + bool_text(assistable) + "}"@,
        None => "{\"online\":"@ + bool_text(online) + ",\"in_session\":false,\"peer_id\":null,\"assistable\":"@
            + bool_text(assistable) + "}"@,
    }
}

/// `GET /status`: whether this machine is online, whether a session `POST /connect`
/// started is still alive and the peer of the newest one, and whether a permanent
/// password is set. `registry` has been pruned of ended sessions.
pub fn handle_status(online: bool, assistable: bool, registry: &ConnectRegistry) -> (r: Reply)
    ensures
        r@ == (ReplyView {
            status: 200,
            body: status_text(
                online,
                assistable,
                if sessions_view(registry.sessions@).len() == 0 {
                    None
                } else {
                    Some(sessions_view(registry.sessions@).last().id)
                },
            ),
        }),
{
    let mut v: Vec<char> = Vec::new();
    push_str(&mut v, "{\"online\":");
    push_bool(&mut v, online);
    match registry.last_peer() {
        Some(id) => {
            push_str(&mut v, ",\"in_session\":true,\"peer_id\":\"");
            push_str(&mut v, id.as_str());
            push_str(&mut v, "\",\"assistable\":");
        },
        None => {
            push_str(&mut v, ",\"in_session\":false,\"peer_id\":null,\"assistable\":");
        },
    }
    push_bool(&mut v, assistable);
    push_str(&mut v, "}");
    reply_chars(200, &v)
}

// ---------------------------------------------------------------------------
// POST /connect, POST /disconnect
// ---------------------------------------------------------------------------

/// A connect that passed its checks: the peer, and the arguments to start the
/// session process with.
pub struct ConnectPlan {
    pub id: String,
    pub relay: bool,
    /// `--connect <id> <password>`, then `--relay` when asked for. The password
    /// always takes the third place; an empty one makes the window ask for it.
    pub args: Vec<String>,
}

/// The arguments a connect starts the session process with.
pub open spec fn connect_args(id: Seq<char>, password: Seq<char>, relay: bool) -> Seq<Seq<char>> {
    let base = seq!["--connect"@, id, password];
    if relay {
        base.push("--relay"@)
    } else {
        base
    }
}

/// `POST /connect?id=<id>[&password=<p>][&relay=true]`: the checks and the
/// arguments. An id that is empty or longer than 128 characters is refused with
/// 400.
pub fn handle_connect(query: &str) -> (r: Result<ConnectPlan, Reply>)
    ensures
        ({
            let id = query_param_text(query@, "id"@);
            match r {
                Ok(plan) => {
                    &&& 0 < id.len() <= 128
                    &&& plan.id@ == id
                    &&& plan.relay == (query_param_text(query@, "relay"@) == "true"@)
                    &&& crate::sessions::args_view(plan.args@) == connect_args(
                        id,
                        query_param_text(query@, "password"@),
                        plan.relay,
                    )
                },
                Err(e) => {
                    &&& (id.len() == 0 || id.len() > 128)
                    &&& e@ == (ReplyView { status: 400, body: "{\"error\":\"missing or invalid id\"}"@ })
                },
            }
        }),
{
    let id = query_param(query, "id");
    let id_len = chars_of(id.as_str()).len();
    if id_len == 0 || id_len > 128 {
        return Err(reply(400, "{\"error\":\"missing or invalid id\"}"));
    }
    let password = query_param(query, "password");
    let relay_value = query_param(query, "relay");
    let relay_chars = chars_of(relay_value.as_str());
    let relay = chars_eq_str(&relay_chars, "true");
    let mut args: Vec<String> = Vec::new();
    args.push(owned("--connect"));
    args.push(owned(id.as_str()));
    args.push(password);
    if relay {
        args.push(owned("--relay"));
    }
    assert(crate::sessions::args_view(args@) =~= connect_args(
        id@,
        query_param_text(query@, "password"@),
        relay,
    ));
    Ok(ConnectPlan { id, relay, args })
}

/// A connect whose session process started as `pid`, created at `created` (0 when
/// that could not be read): the session is recorded, `connect.start` is audited as
/// `ok` with whether relay was forced and the target, and the answer is
/// `{"ok":true,"id":"<id>"}`, the id written as a JSON string.
pub fn connect_started(registry: &mut ConnectRegistry, plan: &ConnectPlan, pid: u32, created: u64) -> (r: (Reply, AuditEvent))
    ensures
        sessions_view(final(registry).sessions@) == sessions_view(old(registry).sessions@).push(
            crate::sessions::SessionView { id: plan.id@, pid, created },
        ),
        r.0@ == (ReplyView {
            status: 200,
            body: "{\"ok\":true,\"id\":"@ + json_string_literal(plan.id@) + "}"@,
        }),
        r.1@ == (AuditEventView {
            action: "connect.start"@,
            actor: "operator"@,
            session_id: 0,
            result: "ok"@,
            extra: seq![("relay"@, ExtraValueView::Flag(plan.relay)), ("target_id"@, ExtraValueView::Text(plan.id@))],
        }),
{
    registry.add(ConnectSession { id: owned(plan.id.as_str()), pid, created });
    let mut extra: Vec<ExtraField> = Vec::new();
    extra.push(flag_field("relay", plan.relay));
    extra.push(text_field("target_id", plan.id.as_str()));
    assert(extra_view(extra@) =~= seq![("relay"@, ExtraValueView::Flag(plan.relay)), ("target_id"@, ExtraValueView::Text(plan.id@))]);
    let event = record("connect.start", "operator", 0, "ok", extra);
    let mut v: Vec<char> = Vec::new();
    push_str(&mut v, "{\"ok\":true,\"id\":");
    let lit = json_string(plan.id.as_str());
    push_str(&mut v, lit.as_str());
    push_str(&mut v, "}");
    (reply_chars(200, &v), event)
}

/// Why a connect's session process did not start.
pub enum LaunchFailure {
    /// The running executable could not be located.
    NoExecutable(String),
    /// The process could not be started.
    SpawnFailed(String),
}

/// A connect whose session process did not start: `connect.start` is audited as
/// `err` and the answer is 500, naming what failed. Nothing is recorded.
pub fn connect_failed(plan: &ConnectPlan, failure: &LaunchFailure) -> (r: (Reply, AuditEvent))
    ensures
        match failure {
            LaunchFailure::NoExecutable(e) => {
                &&& r.0@ == (ReplyView { status: 500, body: "{\"error\":\"failed to locate exe: "@ + e@ + "\"}"@ })
                &&& r.1@ == (AuditEventView {
                    action: "connect.start"@,
                    actor: "operator"@,
                    session_id: 0,
                    result: "err"@,
                    extra: seq![("error"@, ExtraValueView::Text(e@))],
                })
            },
            LaunchFailure::SpawnFailed(e) => {
                &&& r.0@ == (ReplyView { status: 500, body: "{\"error\":\"failed to launch: "@ + e@ + "\"}"@ })
                &&& r.1@ == (AuditEventView {
                    action: "connect.start"@,
                    actor: "operator"@,
                    session_id: 0,
                    result: "err"@,
                    extra: seq![("error"@, ExtraValueView::Text(e@)), ("target_id"@, ExtraValueView::Text(plan.id@))],
                })
            },
        },
{
    let mut extra: Vec<ExtraField> = Vec::new();
    let mut v: Vec<char> = Vec::new();
    match failure {
        LaunchFailure::NoExecutable(e) => {
            extra.push(text_field("error", e.as_str()));
            assert(extra_view(extra@) =~= seq![("error"@, ExtraValueView::Text(e@))]);
            push_str(&mut v, "{\"error\":\"failed to locate exe: ");
            push_str(&mut v, e.as_str());
        },
        LaunchFailure::SpawnFailed(e) => {
            extra.push(text_field("error", e.as_str()));
            extra.push(text_field("target_id", plan.id.as_str()));
            assert(extra_view(extra@) =~= seq![("error"@, ExtraValueView::Text(e@)), ("target_id"@, ExtraValueView::Text(plan.id@))]);
            push_str(&mut v, "{\"error\":\"failed to launch: ");
            push_str(&mut v, e.as_str());
        },
    }
    push_str(&mut v, "\"}");
    let event = record("connect.start", "operator", 0, "err", extra);
    (reply_chars(500, &v), event)
}

/// `POST /disconnect` once the walk is done: `{"ok":true,"closed":<n>}`, and
/// `connect.close` audited when something was closed.
pub fn handle_disconnect(closed: usize) -> (r: (Reply, Option<AuditEvent>))
    ensures
        r.0@ == (ReplyView { status: 200, body: "{\"ok\":true,\"closed\":"@ + decimal(closed as nat) + "}"@ }),
        closed == 0 <==> r.1 is None,
        r.1 matches Some(e) ==> e@ == (AuditEventView {
            action: "connect.close"@,
            actor: "operator"@,
            session_id: 0,
            result: "ok"@,
            extra: seq![("closed"@, ExtraValueView::Count(closed as u64))],
        }),
{
    let event = if closed > 0 {
        let mut extra: Vec<ExtraField> = Vec::new();
        extra.push(count_field("closed", closed as u64));
        assert(extra_view(extra@) =~= seq![("closed"@, ExtraValueView::Count(closed as u64))]);
        Some(record("connect.close", "operator", 0, "ok", extra))
    } else {
        None
    };
    let mut v: Vec<char> = Vec::new();
    push_str(&mut v, "{\"ok\":true,\"closed\":");
    let n = decimal_chars(closed as u64);
    push_all(&mut v, &n);
    push_str(&mut v, "}");
    (reply_chars(200, &v), event)
}

// ---------------------------------------------------------------------------
// POST /password
// ---------------------------------------------------------------------------

/// The password a `POST /password` body carries: its `password` field, or empty.
pub open spec fn password_of(body: Seq<char>) -> Seq<char> {
    match json_field_value(body, "password"@) {
        Some(p) => p,
        None => seq![],
    }
}

/// `POST /password` `{"password":"..."}`: the password to set. An empty one, or one
/// longer than 64 bytes, is refused with 400.
pub fn handle_password(body: &str) -> (r: Result<String, Reply>)
    ensures
        ({
            let p = password_of(body@);
            match r {
                Ok(pw) => p.len() > 0 && encode_utf8(p).len() <= 64 && pw@ == p,
                Err(e) => (p.len() == 0 || encode_utf8(p).len() > 64) && e@ == (ReplyView {
                    status: 400,
                    body: "{\"ok\":false,\"error\":\"missing or invalid password\"}"@,
                }),
            }
        }),
{
    let password = match json_field(body, "password") {
        Some(p) => p,
        None => string_from(&Vec::new()),
    };
    if password.as_str().is_empty() || password.as_str().as_bytes().len() > 64 {
        return Err(reply(400, "{\"ok\":false,\"error\":\"missing or invalid password\"}"));
    }
    Ok(password)
}

/// `POST /password` once setting it was tried: granting access is audited as
/// `auth.grant` by the customer, `ok` or `err`, and the answer is `{"ok":true}` or
/// a 500.
pub fn password_set(ok: bool) -> (r: (Reply, AuditEvent))
    ensures
        ok ==> r.0@ == (ReplyView { status: 200, body: "{\"ok\":true}"@ }) && r.1@ == (AuditEventView {
            action: "auth.grant"@,
            actor: "customer"@,
            session_id: 0,
            result: "ok"@,
            extra: seq![("method"@, ExtraValueView::Text("password"@))],
        }),
        !ok ==> r.0@ == (ReplyView { status: 500, body: "{\"ok\":false,\"error\":\"failed to set password\"}"@ })
            && r.1@ == (AuditEventView {
            action: "auth.grant"@,
            actor: "customer"@,
            session_id: 0,
            result: "err"@,
            extra: seq![
                ("error"@, ExtraValueView::Text("failed to set password"@)),
                ("method"@, ExtraValueView::Text("password"@)),
            ],
        }),
{
    let mut extra: Vec<ExtraField> = Vec::new();
    if ok {
        extra.push(text_field("method", "password"));
        assert(extra_view(extra@) =~= seq![("method"@, ExtraValueView::Text("password"@))]);
        let e = record("auth.grant", "customer", 0, "ok", extra);
        (reply(200, "{\"ok\":true}"), e)
    } else {
        extra.push(text_field("error", "failed to set password"));
        extra.push(text_field("method", "password"));
        assert(extra_view(extra@) =~= seq![
            ("error"@, ExtraValueView::Text("failed to set password"@)),
            ("method"@, ExtraValueView::Text("password"@)),
        ]);
        let e = record("auth.grant", "customer", 0, "err", extra);
        (reply(500, "{\"ok\":false,\"error\":\"failed to set password\"}"), e)
    }
}

// ---------------------------------------------------------------------------
// Session endpoints: calls to the connection manager
// ---------------------------------------------------------------------------

/// How long the connection manager, or a session process, is given to answer.
pub const CM_REPLY_TIMEOUT_MS: u64 = 2000;

/// An action the connection manager runs on a session.
pub enum LocalApiAction {
    Sessions,
    Approve { accept: bool },
    Control { name: String, accept: bool },
    Permission { name: String, enabled: bool },
    Terminate,
    Dismiss,
}

/// A call to the connection manager: an action on the session `id`.
pub struct LocalApiCall {
    pub id: i32,
    pub action: LocalApiAction,
}

/// The connection manager's answer.
pub enum LocalApiReply {
    /// Done; `data` is JSON for the response, or empty.
    Done { data: String },
    BadRequest { reason: String },
    NotFound,
    Conflict { reason: String },
    Failed { reason: String },
}

pub enum ActionView {
    Sessions,
    Approve { accept: bool },
    Control { name: Seq<char>, accept: bool },
    Permission { name: Seq<char>, enabled: bool },
    Terminate,
    Dismiss,
}

impl View for LocalApiAction {
    type V = ActionView;

    open spec fn view(&self) -> ActionView {
        match self {
            LocalApiAction::Sessions => ActionView::Sessions,
            LocalApiAction::Approve { accept } => ActionView::Approve { accept: *accept },
            LocalApiAction::Control { name, accept } => ActionView::Control {
                name: name@,
                accept: *accept,
            },
            LocalApiAction::Permission { name, enabled } => ActionView::Permission {
                name: name@,
                enabled: *enabled,
            },
            LocalApiAction::Terminate => ActionView::Terminate,
            LocalApiAction::Dismiss => ActionView::Dismiss,
        }
    }
}

/// The four permissions a peer can be given or asked for.
pub open spec fn is_permission_name(name: Seq<char>) -> bool {
    name == "keyboard"@ || name == "clipboard"@ || name == "audio"@ || name == "file"@
}

fn permission_name(name: &Vec<char>) -> (r: bool)
    ensures
        r == is_permission_name(name@),
{
    chars_eq_str(name, "keyboard") || chars_eq_str(name, "clipboard") || chars_eq_str(
        name,
        "audio",
    ) || chars_eq_str(name, "file")
}

/// `GET /sessions`: the call listing every session.
pub fn sessions_call() -> (c: LocalApiCall)
    ensures
        c.id == 0,
        c.action@ == ActionView::Sessions,
{
    LocalApiCall { id: 0, action: LocalApiAction::Sessions }
}

/// `POST /approve` `{"id":3,"accept":true}`: let a peer in, or refuse it.
pub fn handle_approve(body: &str) -> (r: Result<LocalApiCall, Reply>)
    ensures
        match (id_field_value(body@), bool_field_value(body@, "accept"@)) {
            (Some(id), Some(accept)) => r matches Ok(c) && c.id == id && c.action@ == (ActionView::Approve { accept }),
            _ => r matches Err(e) && e@ == (ReplyView { status: 400, body: error_body_text("id and accept are required"@) }),
        },
{
    match (id_field(body), bool_field(body, "accept")) {
        (Some(id), Some(accept)) => Ok(LocalApiCall { id, action: LocalApiAction::Approve { accept } }),
        _ => Err(error_reply(400, "id and accept are required")),
    }
}

/// `POST /control` `{"id":3,"name":"keyboard","accept":true}`: answer a peer's
/// request for one of the four permissions, named so that the answer cannot land
/// on a request the caller did not mean.
pub fn handle_control(body: &str) -> (r: Result<LocalApiCall, Reply>)
    ensures
        match (id_field_value(body@), json_field_value(body@, "name"@), bool_field_value(body@, "accept"@)) {
            (Some(id), Some(name), Some(accept)) => if is_permission_name(name) {
                r matches Ok(c) && c.id == id && c.action@ == (ActionView::Control { name, accept })
            } else {
                r matches Err(e) && e@ == (ReplyView { status: 400, body: error_body_text("unknown permission"@) })
            },
            _ => r matches Err(e) && e@ == (ReplyView { status: 400, body: error_body_text("id, name and accept are required"@) }),
        },
        match (id_field_value(body@), json_field_value(body@, "name"@), bool_field_value(body@, "accept"@)) {
            (Some(id), Some(name), Some(accept)) => (name == "keyboard"@ || name == "clipboard"@ || name == "audio"@ || name == "file"@) ==> (r matches Ok(c) && c.id == id
                && c.action@ == (ActionView::Control { name, accept })),
            _ => true,
        },
{
    match (id_field(body), json_field(body, "name"), bool_field(body, "accept")) {
        (Some(id), Some(name), Some(accept)) => {
            let n = chars_of(name.as_str());
            if !permission_name(&n) {
                return Err(error_reply(400, "unknown permission"));
            }
            Ok(LocalApiCall { id, action: LocalApiAction::Control { name, accept } })
        },
        _ => Err(error_reply(400, "id, name and accept are required")),
    }
}

/// `POST /permission` `{"id":3,"name":"clipboard","enabled":true}`: switch one of
/// the four things a peer may do. A name other than the four is refused with 400
/// `unknown permission` before the connection manager is asked.
pub fn handle_permission(body: &str) -> (r: Result<LocalApiCall, Reply>)
    ensures
        match (id_field_value(body@), json_field_value(body@, "name"@), bool_field_value(body@, "enabled"@)) {
            (Some(id), Some(name), Some(enabled)) => if is_permission_name(name) {
                r matches Ok(c) && c.id == id && c.action@ == (ActionView::Permission { name, enabled })
            } else {
                r matches Err(e) && e@ == (ReplyView { status: 400, body: error_body_text("unknown permission"@) })
            },
            _ => r matches Err(e) && e@ == (ReplyView { status: 400, body: error_body_text("id, name and enabled are required"@) }),
        },
        match (id_field_value(body@), json_field_value(body@, "name"@), bool_field_value(body@, "enabled"@)) {
            (Some(id), Some(name), Some(enabled)) => (name == "keyboard"@ || name == "clipboard"@ || name == "audio"@ || name == "file"@) ==> (r matches Ok(c) && c.id == id
                && c.action@ == (ActionView::Permission { name, enabled })),
            _ => true,
        },
{
    match (id_field(body), json_field(body, "name"), bool_field(body, "enabled")) {
        (Some(id), Some(name), Some(enabled)) => {
            let n = chars_of(name.as_str());
            if !permission_name(&n) {
                return Err(error_reply(400, "unknown permission"));
            }
            Ok(LocalApiCall { id, action: LocalApiAction::Permission { name, enabled } })
        },
        _ => Err(error_reply(400, "id, name and enabled are required")),
    }
}

/// `POST /terminate` `{"id":3}`: end a session; the peer may reconnect.
pub fn handle_terminate(body: &str) -> (r: Result<LocalApiCall, Reply>)
    ensures
        match id_field_value(body@) {
            Some(id) => r matches Ok(c) && c.id == id && c.action@ == ActionView::Terminate,
            None => r matches Err(e) && e@ == (ReplyView { status: 400, body: error_body_text("id is required"@) }),
        },
{
    match id_field(body) {
        Some(id) => Ok(LocalApiCall { id, action: LocalApiAction::Terminate }),
        None => Err(error_reply(400, "id is required")),
    }
}

/// `POST /dismiss` `{"id":3}`: take an ended session off the list.
pub fn handle_dismiss(body: &str) -> (r: Result<LocalApiCall, Reply>)
    ensures
        match id_field_value(body@) {
            Some(id) => r matches Ok(c) && c.id == id && c.action@ == ActionView::Dismiss,
            None => r matches Err(e) && e@ == (ReplyView { status: 400, body: error_body_text("id is required"@) }),
        },
{
    match id_field(body) {
        Some(id) => Ok(LocalApiCall { id, action: LocalApiAction::Dismiss }),
        None => Err(error_reply(400, "id is required")),
    }
}

/// How one exchange with the connection manager went.
pub enum CmExchange {
    /// Nothing is listening on its channel.
    NotListening(String),
    /// The call could not be sent.
    SendFailed(String),
    /// It answered.
    Answered(LocalApiReply),
    /// It answered with some other message.
    AnsweredOther,
    /// It closed the connection without answering.
    Closed,
    /// Reading its answer failed.
    ReadFailed(String),
    /// It did not answer within [`CM_REPLY_TIMEOUT_MS`].
    TimedOut,
}

/// What a call to the connection manager came to: its answer, or the status to
/// answer with and why. Nothing listening is 503 (no session manager right now), a
/// manager that did not answer in time is 504, anything else that went wrong is
/// 500.
pub open spec fn cm_outcome(e: CmExchange) -> Result<LocalApiReply, (u16, Seq<char>)> {
    match e {
        CmExchange::NotListening(m) => Err((503u16, "no session manager is listening: "@ + m@)),
        CmExchange::SendFailed(m) => Err((500u16, "cannot reach the session manager: "@ + m@)),
        CmExchange::Answered(r) => Ok(r),
        CmExchange::AnsweredOther => Err((500u16, "the session manager answered with something else"@)),
        CmExchange::Closed => Err((500u16, "the session manager closed the connection"@)),
        CmExchange::ReadFailed(m) => Err((500u16, "session manager error: "@ + m@)),
        CmExchange::TimedOut => Err((504u16, "the session manager did not answer"@)),
    }
}

fn joined(prefix: &str, detail: &str) -> (s: String)
    ensures
        s@ == prefix@ + detail@,
{
    let mut v: Vec<char> = Vec::new();
    push_str(&mut v, prefix);
    push_str(&mut v, detail);
    string_from(&v)
}

/// What a call to the connection manager came to, see [`cm_outcome`].
pub fn cm_call(exchange: CmExchange) -> (r: Result<LocalApiReply, (u16, String)>)
    ensures
        match (r, cm_outcome(exchange)) {
            (Ok(a), Ok(b)) => a == b,
            (Err((s, m)), Err((t, n))) => s == t && m@ == n,
            _ => false,
        },
{
    match exchange {
        CmExchange::NotListening(m) => Err((503, joined("no session manager is listening: ", m.as_str()))),
        CmExchange::SendFailed(m) => Err((500, joined("cannot reach the session manager: ", m.as_str()))),
        CmExchange::Answered(reply) => Ok(reply),
        CmExchange::AnsweredOther => Err((500, owned("the session manager answered with something else"))),
        CmExchange::Closed => Err((500, owned("the session manager closed the connection"))),
        CmExchange::ReadFailed(m) => Err((500, joined("session manager error: ", m.as_str()))),
        CmExchange::TimedOut => Err((504, owned("the session manager did not answer"))),
    }
}

/// The response to the connection manager's answer: 200 with `data` under
/// `ok_key` (or just `{"ok":true}` when there is none), 400 for a bad request, 404
/// for a session that does not exist, 409 for an action that does not apply to the
/// session's state, 500 for a failure.
pub open spec fn reply_for(reply: LocalApiReply, ok_key: Seq<char>) -> ReplyView {
    match reply {
        LocalApiReply::Done { data } => ReplyView {
            status: 200,
            body: if data@.len() == 0 {
                "{\"ok\":true}"@
            } else {
                "{\"ok\":true,\""@ + ok_key + "\":"@ + data@ + "}"@
            },
        },
        LocalApiReply::BadRequest { reason } => ReplyView { status: 400, body: error_body_text(reason@) },
        LocalApiReply::NotFound => ReplyView { status: 404, body: error_body_text("no such session"@) },
        LocalApiReply::Conflict { reason } => ReplyView { status: 409, body: error_body_text(reason@) },
        LocalApiReply::Failed { reason } => ReplyView { status: 500, body: error_body_text(reason@) },
    }
}

/// Turn the connection manager's answer into a response, see [`reply_for`].
pub fn respond_reply(reply: &LocalApiReply, ok_key: &str) -> (r: Reply)
    ensures
        r@ == reply_for(*reply, ok_key@),
{
    match reply {
        LocalApiReply::Done { data } => {
            if chars_of(data.as_str()).len() == 0 {
                reply_fixed_ok()
            } else {
                let mut v: Vec<char> = Vec::new();
                push_str(&mut v, "{\"ok\":true,\"");
                push_str(&mut v, ok_key);
                push_str(&mut v, "\":");
                push_str(&mut v, data.as_str());
                push_str(&mut v, "}");
                reply_chars(200, &v)
            }
        },
        LocalApiReply::BadRequest { reason } => error_reply(400, reason.as_str()),
        LocalApiReply::NotFound => error_reply(404, "no such session"),
        LocalApiReply::Conflict { reason } => error_reply(409, reason.as_str()),
        LocalApiReply::Failed { reason } => error_reply(500, reason.as_str()),
    }
}

fn reply_fixed_ok() -> (r: Reply)
    ensures
        r@ == (ReplyView { status: 200, body: "{\"ok\":true}"@ }),
{
    reply(200, "{\"ok\":true}")
}

/// The response to one session action, from how the call went.
pub fn dispatch(outcome: &Result<LocalApiReply, (u16, String)>) -> (r: Reply)
    ensures
        match outcome {
            Ok(reply) => r@ == reply_for(*reply, "result"@),
            Err((status, reason)) => r@ == (ReplyView { status: *status, body: error_body_text(reason@) }),
        },
{
    match outcome {
        Ok(reply) => respond_reply(reply, "result"),
        Err((status, reason)) => error_reply(*status, reason.as_str()),
    }
}

/// `GET /sessions`, from how the call went. No session manager is a machine with
/// no sessions: a 503 becomes `{"ok":true,"sessions":[]}`.
pub fn handle_sessions(outcome: &Result<LocalApiReply, (u16, String)>) -> (r: Reply)
    ensures
        match outcome {
            Ok(reply) => r@ == reply_for(*reply, "sessions"@),
            Err((status, reason)) => if *status == 503 {
                r@ == (ReplyView { status: 200, body: "{\"ok\":true,\"sessions\":[]}"@ })
            } else {
                r@ == (ReplyView { status: *status, body: error_body_text(reason@) })
            },
        },
{
    match outcome {
        Ok(reply) => respond_reply(reply, "sessions"),
        Err((status, reason)) => if *status == 503 {
            reply(200, "{\"ok\":true,\"sessions\":[]}")
        } else {
            error_reply(*status, reason.as_str())
        },
    }
}

// ---------------------------------------------------------------------------
// POST /request-permission
// ---------------------------------------------------------------------------

/// Whether a caller-supplied peer id is safe to put into an IPC name: not empty,
/// at most 128 bytes, and no control character, white space, `/`, `\` or `:`.
pub open spec fn peer_id_ok(id: Seq<char>) -> bool {
    &&& id.len() > 0
    &&& encode_utf8(id).len() <= 128
    &&& forall|i: int|
        0 <= i < id.len() ==> !(is_control_char(#[trigger] id[i]) || is_white_space(id[i]) || id[i]
            == '/' || id[i] == '\\' || id[i] == ':')
}

/// Whether a caller-supplied peer id is safe to put into an IPC name, see
/// [`peer_id_ok`].
pub fn valid_peer_id(id: &str) -> (r: bool)
    ensures
        r == peer_id_ok(id@),
{
    let c = chars_of(id);
    if c.len() == 0 || id.as_bytes().len() > 128 {
        return false;
    }
    let mut i: usize = 0;
    while i < c.len()
        invariant
            i <= c.len(),
            c@ == id@,
            forall|j: int|
                0 <= j < i ==> !(is_control_char(#[trigger] c@[j]) || is_white_space(c@[j]) || c@[j]
                    == '/' || c@[j] == '\\' || c@[j] == ':'),
        decreases c.len() - i,
    {
        let ch = c[i];
        if is_control(ch) || is_whitespace_char(ch) || ch == '/' || ch == '\\' || ch == ':' {
            return false;
        }
        i = i + 1;
    }
    true
}

/// A permission request that passed its checks: the peer, and the permission as
/// the session spells it (empty for the keyboard).
pub struct PermissionAsk {
    pub peer_id: String,
    pub permission: String,
}

/// The permission names are exactly `keyboard`, `clipboard`, `audio` and `file`;
/// each of them can be asked of a peer, `keyboard` spelled as the empty name and
/// the other three as themselves, and no other name can.
pub proof fn lemma_permission_names(n: Seq<char>)
    ensures
        is_permission_name(n) <==> (n == "keyboard"@ || n == "clipboard"@ || n == "audio"@ || n
            == "file"@),
        n == "keyboard"@ ==> wire_permission(n) == Some(Seq::<char>::empty()),
        (n == "clipboard"@ || n == "audio"@ || n == "file"@) ==> wire_permission(n) == Some(n),
        !(n == "keyboard"@ || n == "clipboard"@ || n == "audio"@ || n == "file"@) ==> wire_permission(n)
            is None,
        wire_permission(n) is Some <==> is_permission_name(n),
{
    reveal_strlit("keyboard");
    reveal_strlit("clipboard");
    reveal_strlit("audio");
    reveal_strlit("file");
}

/// How the API's permission names are spelled to the session: `keyboard` is the
/// empty name (it is asked for by clearing `disable_keyboard`), the other three as
/// themselves.
pub open spec fn wire_permission(name: Seq<char>) -> Option<Seq<char>> {
    if name == "keyboard"@ {
        Some(seq![])
    } else if name == "clipboard"@ || name == "audio"@ || name == "file"@ {
        Some(name)
    } else {
        None
    }
}

/// `POST /request-permission` `{"id":"<peer id>","name":"clipboard"}`: ask a peer
/// to open one of its permissions. The checks, in order: an id (400 `id is
/// required`), a safe one (400 `invalid id`), a name (400 `name is required`), one
/// of the four (400 `unknown permission`).
pub fn handle_request_permission(body: &str) -> (r: Result<PermissionAsk, Reply>)
    ensures
        match json_field_value(body@, "id"@) {
            None => r matches Err(e) && e@ == (ReplyView { status: 400, body: error_body_text("id is required"@) }),
            Some(id) => if !peer_id_ok(id) {
                r matches Err(e) && e@ == (ReplyView { status: 400, body: error_body_text("invalid id"@) })
            } else {
                match json_field_value(body@, "name"@) {
                    None => r matches Err(e) && e@ == (ReplyView { status: 400, body: error_body_text("name is required"@) }),
                    Some(name) => match wire_permission(name) {
                        None => r matches Err(e) && e@ == (ReplyView { status: 400, body: error_body_text("unknown permission"@) }),
                        Some(p) => r matches Ok(a) && a.peer_id@ == id && a.permission@ == p,
                    },
                }
            },
        },
        match (json_field_value(body@, "id"@), json_field_value(body@, "name"@)) {
            (Some(id), Some(name)) => peer_id_ok(id) ==> (
                (name == "keyboard"@ ==> (r matches Ok(a) && a.peer_id@ == id && a.permission@.len() == 0))
                && ((name == "clipboard"@ || name == "audio"@ || name == "file"@) ==> (r matches Ok(a)
                    && a.peer_id@ == id && a.permission@ == name))),
            _ => true,
        },
{
    proof {
        reveal_strlit("keyboard");
        reveal_strlit("clipboard");
        reveal_strlit("audio");
        reveal_strlit("file");
    }
    let id = match json_field(body, "id") {
        Some(id) => id,
        None => {
            return Err(error_reply(400, "id is required"));
        },
    };
    if !valid_peer_id(id.as_str()) {
        return Err(error_reply(400, "invalid id"));
    }
    let name = match json_field(body, "name") {
        Some(name) => name,
        None => {
            return Err(error_reply(400, "name is required"));
        },
    };
    let n = chars_of(name.as_str());
    let permission = if chars_eq_str(&n, "keyboard") {
        string_from(&Vec::new())
    } else if chars_eq_str(&n, "clipboard") || chars_eq_str(&n, "audio") || chars_eq_str(&n, "file") {
        name
    } else {
        return Err(error_reply(400, "unknown permission"));
    };
    Ok(PermissionAsk { peer_id: id, permission })
}

/// How one exchange with a session process went.
pub enum SessionExchange {
    /// No session process for that peer is listening.
    NotListening(String),
    /// The request could not be sent.
    SendFailed(String),
    /// The session acknowledged the request.
    Acknowledged,
    /// It answered with some other message.
    AnsweredOther,
    /// It closed the connection without answering.
    Closed,
    /// Reading its answer failed.
    ReadFailed(String),
    /// It did not answer within [`CM_REPLY_TIMEOUT_MS`].
    TimedOut,
}

/// What asking the session of `peer_id` came to: taken (the ack only says the
/// session ran its toggle, not that the peer agreed), or the status to answer
/// with: 503 when no session for that peer is listening, 504 when it did not
/// answer in time, 500 otherwise.
pub open spec fn ask_outcome(e: SessionExchange, peer_id: Seq<char>) -> Result<(), (u16, Seq<char>)> {
    match e {
        SessionExchange::NotListening(m) => Err((503u16, "no session for "@ + peer_id + " is listening: "@ + m@)),
        SessionExchange::SendFailed(m) => Err((500u16, "cannot reach the session: "@ + m@)),
        SessionExchange::Acknowledged => Ok(()),
        SessionExchange::AnsweredOther => Err((500u16, "the session answered with something else"@)),
        SessionExchange::Closed => Err((500u16, "the session closed the connection"@)),
        SessionExchange::ReadFailed(m) => Err((500u16, "cannot read the session's answer: "@ + m@)),
        SessionExchange::TimedOut => Err((504u16, "the session did not answer"@)),
    }
}

/// What asking the session of `peer_id` came to, see [`ask_outcome`].
pub fn ask_session_for_control(exchange: SessionExchange, peer_id: &str) -> (r: Result<(), (u16, String)>)
    ensures
        match (r, ask_outcome(exchange, peer_id@)) {
            (Ok(_), Ok(_)) => true,
            (Err((s, m)), Err((t, n))) => s == t && m@ == n,
            _ => false,
        },
{
    match exchange {
        SessionExchange::NotListening(m) => {
            let mut v: Vec<char> = Vec::new();
            push_str(&mut v, "no session for ");
            push_str(&mut v, peer_id);
            push_str(&mut v, " is listening: ");
            push_str(&mut v, m.as_str());
            Err((503, string_from(&v)))
        },
        SessionExchange::SendFailed(m) => Err((500, joined("cannot reach the session: ", m.as_str()))),
        SessionExchange::Acknowledged => Ok(()),
        SessionExchange::AnsweredOther => Err((500, owned("the session answered with something else"))),
        SessionExchange::Closed => Err((500, owned("the session closed the connection"))),
        SessionExchange::ReadFailed(m) => Err((500, joined("cannot read the session's answer: ", m.as_str()))),
        SessionExchange::TimedOut => Err((504, owned("the session did not answer"))),
    }
}

/// The response to `POST /request-permission` once the session was asked:
/// `{"ok":true}`, or the error.
pub fn request_permission_reply(outcome: &Result<(), (u16, String)>) -> (r: Reply)
    ensures
        match outcome {
            Ok(_) => r@ == (ReplyView { status: 200, body: "{\"ok\":true}"@ }),
            Err((status, reason)) => r@ == (ReplyView { status: *status, body: error_body_text(reason@) }),
        },
{
    match outcome {
        Ok(_) => reply_fixed_ok(),
        Err((status, reason)) => error_reply(*status, reason.as_str()),
    }
}

} // verus!
