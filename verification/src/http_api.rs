//! The local HTTP API's front door: which requests are answered, by what, and
//! with which CORS origin.
//!
//! - Listens on 127.0.0.1 only (the server itself lives with the caller).
//! - Requires a token: `Authorization: Bearer <token>` or `?token=<token>`.
//! - Host check: only `localhost` / `127.0.0.1` Host headers are accepted
//!   (DNS-rebinding protection).
//! - CORS: `Access-Control-Allow-Origin` is echoed only for trusted origins, local
//!   ones (localhost / 127.0.0.1, any port) and those listed in `api-cors-origin`.
//! - Request bodies above [`MAX_BODY_BYTES`] are refused with 413.
use crate::text::{
    all_ascii_digits, all_digits, chars_eq_str, chars_of, eq_ignore_ascii_case, eq_ignore_case,
    find_char, find_char_in, first_segment, first_segment_end, lower_seq, owned, parse_usize,
    parse_usize_in, rfind_char_in, segments, slice_of, split_bounds, starts_with, starts_with_at,
    string_from, to_lower, trim_bounds, trim_end_seq, trim_seq, trim_start_seq, is_white_space,
};
use crate::sessions::Platform;
use crate::url::{percent_decode, percent_decode_text, query_raw_bounds, query_raw_value};
use vstd::prelude::*;

verus! {

broadcast use vstd::string::group_string_axioms;

/// The port the API listens on, on 127.0.0.1 only.
pub const PORT: u16 = 21120;

/// Cap on request bodies, in bytes.
pub const MAX_BODY_BYTES: usize = 1024;

/// The permission bits the configuration file is given before the API starts:
/// read and write for its owner only, since it holds the API token.
pub const CONFIG_FILE_MODE: u32 = 0o600;

/// The mode the configuration file is set to when the API starts, where the
/// platform has Unix permission bits; elsewhere the file is left as it is.
pub fn tighten_config_permissions(platform: Platform) -> (mode: Option<u32>)
    ensures
        platform == Platform::Unix ==> mode == Some(0o600u32),
        platform != Platform::Unix ==> mode is None,
{
    match platform {
        Platform::Unix => Some(CONFIG_FILE_MODE),
        _ => None,
    }
}

// ---------------------------------------------------------------------------
// Requests
// ---------------------------------------------------------------------------

/// One request header, as received.
pub struct HeaderLine {
    pub name: String,
    pub value: String,
}

/// The headers of a request as pairs of character sequences.
pub open spec fn headers_view(hs: Seq<HeaderLine>) -> Seq<(Seq<char>, Seq<char>)> {
    hs.map_values(|h: HeaderLine| (h.name@, h.value@))
}

/// The request methods the API tells apart.
#[derive(PartialEq, Eq, Structural, Clone, Copy, Debug)]
pub enum HttpMethod {
    Get,
    Post,
    Options,
    Other,
}

/// The part of a request the front door looks at.
pub struct RequestHead {
    pub method: HttpMethod,
    /// The request target: path, then optionally `?` and a query string.
    pub url: String,
    pub headers: Vec<HeaderLine>,
}

/// The value of the first header named `key`, compared ignoring ASCII case.
pub open spec fn header_value(hs: Seq<(Seq<char>, Seq<char>)>, key: Seq<char>) -> Option<
    Seq<char>,
>
    decreases hs.len(),
{
    if hs.len() == 0 {
        None
    } else if eq_ignore_case(hs[0].0, key) {
        Some(hs[0].1)
    } else {
        header_value(hs.skip(1), key)
    }
}

/// First value of a request header, if present.
pub fn request_header(headers: &Vec<HeaderLine>, key: &str) -> (r: Option<String>)
    ensures
        r matches Some(v) ==> header_value(headers_view(headers@), key@) == Some(v@),
        r is None ==> header_value(headers_view(headers@), key@) is None,
{
    let k = chars_of(key);
    let ghost hv = headers_view(headers@);
    assert(hv.skip(0) == hv);
    let mut i: usize = 0;
    while i < headers.len()
        invariant
            i <= headers.len(),
            k@ == key@,
            hv == headers_view(headers@),
            header_value(hv, key@) == header_value(hv.skip(i as int), key@),
        decreases headers.len() - i,
    {
        let name = chars_of(headers[i].name.as_str());
        assert(hv.skip(i as int)[0] == (headers@[i as int].name@, headers@[i as int].value@));
        if eq_ignore_ascii_case(&name, &k) {
            let v = owned(headers[i].value.as_str());
            return Some(v);
        }
        assert(hv.skip(i as int).skip(1) == hv.skip(i + 1));
        i = i + 1;
    }
    None
}

// ---------------------------------------------------------------------------
// Host and Origin checks
// ---------------------------------------------------------------------------

/// `[` or `]`, trimmed off a host.
pub open spec fn is_bracket(c: char) -> bool {
    c == '[' || c == ']'
}

pub open spec fn trim_brackets_start(s: Seq<char>) -> Seq<char>
    decreases s.len(),
{
    if s.len() > 0 && is_bracket(s[0]) {
        trim_brackets_start(s.drop_first())
    } else {
        s
    }
}

pub open spec fn trim_brackets_end(s: Seq<char>) -> Seq<char>
    decreases s.len(),
{
    if s.len() > 0 && is_bracket(s.last()) {
        trim_brackets_end(s.drop_last())
    } else {
        s
    }
}

/// `s.trim_matches(|c| c == '[' || c == ']')`.
pub open spec fn trim_brackets(s: Seq<char>) -> Seq<char> {
    trim_brackets_end(trim_brackets_start(s))
}

/// Whether `i` is the position of the last `c` in `s`.
pub open spec fn is_last_index_of(s: Seq<char>, c: char, i: int) -> bool {
    0 <= i < s.len() && s[i] == c && forall|j: int| i < j < s.len() ==> s[j] != c
}

/// `a` without a trailing `:port`: split at the last `:`, the part before it when
/// everything after it is ASCII digits (none at all counts), else all of `a`.
pub open spec fn strip_port(a: Seq<char>) -> Seq<char> {
    if exists|i: int| is_last_index_of(a, ':', i) {
        let i = choose|i: int| is_last_index_of(a, ':', i);
        if all_digits(a.skip(i + 1)) {
            a.take(i)
        } else {
            a
        }
    } else {
        a
    }
}

/// The host named by an authority: port and brackets taken off.
pub open spec fn host_of(a: Seq<char>) -> Seq<char> {
    trim_brackets(strip_port(a))
}

/// `localhost` or `127.0.0.1`, ignoring ASCII case.
pub open spec fn is_local_host(h: Seq<char>) -> bool {
    eq_ignore_case(h, "localhost"@) || eq_ignore_case(h, "127.0.0.1"@)
}

/// Whether the request's `Host` header names this machine: its part before any
/// `/`, trimmed, without port or brackets, is `localhost` or `127.0.0.1`. A request
/// without a Host header is refused.
pub open spec fn host_allowed_value(hs: Seq<(Seq<char>, Seq<char>)>) -> bool {
    match header_value(hs, "Host"@) {
        None => false,
        Some(h) => is_local_host(host_of(trim_seq(first_segment(h, '/')))),
    }
}

/// The authority of a lower-cased `http://` or `https://` origin: what follows
/// the scheme up to the first `/`, then up to the first `#`.
pub open spec fn origin_authority(lower: Seq<char>) -> Option<Seq<char>> {
    if starts_with(lower, "http://"@) {
        Some(first_segment(first_segment(lower.skip("http://"@.len() as int), '/'), '#'))
    } else if starts_with(lower, "https://"@) {
        Some(first_segment(first_segment(lower.skip("https://"@.len() as int), '/'), '#'))
    } else {
        None
    }
}

/// Whether one of the comma-separated entries of `cfg`, trimmed and lower-cased,
/// is the non-empty `lower`.
pub open spec fn cors_listed(cfg: Seq<char>, lower: Seq<char>) -> bool {
    exists|i: int|
        0 <= i < segments(cfg, ',').len() && {
            let e = lower_seq(trim_seq(#[trigger] segments(cfg, ',')[i]));
            e.len() > 0 && e == lower
        }
}

/// Whether a browser `Origin` is trusted: an `http://` or `https://` origin whose
/// host is local (any port), or one listed in `api-cors-origin` (`cfg`).
pub open spec fn origin_trusted(origin: Seq<char>, cfg: Seq<char>) -> bool {
    let lower = lower_seq(origin);
    match origin_authority(lower) {
        None => false,
        Some(a) => is_local_host(host_of(a)) || cors_listed(cfg, lower),
    }
}

proof fn lemma_last_index_unique(s: Seq<char>, c: char, i: int, j: int)
    requires
        is_last_index_of(s, c, i),
        is_last_index_of(s, c, j),
    ensures
        i == j,
{
}

/// Bounds of the host in `s[from..to]`: port and brackets taken off.
fn host_bounds(s: &Vec<char>, from: usize, to: usize) -> (r: (usize, usize))
    requires
        from <= to <= s.len(),
    ensures
        from <= r.0 <= r.1 <= to,
        host_of(s@.subrange(from as int, to as int)) == s@.subrange(r.0 as int, r.1 as int),
{
    let ghost a = s@.subrange(from as int, to as int);
    let mut end = to;
    match rfind_char_in(s, ':', from, to) {
        Some(i) => {
            assert(is_last_index_of(a, ':', i - from));
            proof {
                let k = choose|k: int| is_last_index_of(a, ':', k);
                lemma_last_index_unique(a, ':', k, i - from);
            }
            assert(a.skip(i - from + 1) == s@.subrange(i + 1, to as int));
            if all_ascii_digits(s, i + 1, to) {
                assert(a.take(i - from) == s@.subrange(from as int, i as int));
                end = i;
            }
        },
        None => {
            assert(!exists|k: int| is_last_index_of(a, ':', k));
        },
    }
    let ghost p = s@.subrange(from as int, end as int);
    assert(strip_port(a) == p);
    let mut b = from;
    while b < end && (s[b] == '[' || s[b] == ']')
        invariant
            from <= b <= end <= to <= s.len(),
            trim_brackets_start(p) == trim_brackets_start(s@.subrange(b as int, end as int)),
        decreases end - b,
    {
        assert(s@.subrange(b as int, end as int).drop_first() == s@.subrange(b + 1, end as int));
        b = b + 1;
    }
    let mut e = end;
    while e > b && (s[e - 1] == '[' || s[e - 1] == ']')
        invariant
            from <= b <= e <= end <= to <= s.len(),
            trim_brackets(p) == trim_brackets_end(s@.subrange(b as int, e as int)),
        decreases e - b,
    {
        assert(s@.subrange(b as int, e as int).drop_last() == s@.subrange(b as int, e - 1));
        e = e - 1;
    }
    (b, e)
}

/// Whether `s[from..to]` is `localhost` or `127.0.0.1`, ignoring ASCII case.
fn is_local_host_in(s: &Vec<char>, from: usize, to: usize) -> (r: bool)
    requires
        from <= to <= s.len(),
    ensures
        r == is_local_host(s@.subrange(from as int, to as int)),
{
    let h = slice_of(s, from, to);
    let localhost = chars_of("localhost");
    let loopback = chars_of("127.0.0.1");
    eq_ignore_ascii_case(&h, &localhost) || eq_ignore_ascii_case(&h, &loopback)
}

/// Whether the Host header names this machine, see [`host_allowed_value`].
pub fn host_allowed(headers: &Vec<HeaderLine>) -> (r: bool)
    ensures
        r == host_allowed_value(headers_view(headers@)),
{
    let host = match request_header(headers, "Host") {
        Some(h) => h,
        None => {
            return false;
        },
    };
    let h = chars_of(host.as_str());
    let seg_end = first_segment_end(&h, '/', 0, h.len());
    assert(h@.subrange(0, h.len() as int) == h@);
    let (a, b) = trim_bounds(&h, 0, seg_end);
    let (c, d) = host_bounds(&h, a, b);
    is_local_host_in(&h, c, d)
}

/// Whether the origin is one of the entries of the comma-separated `cfg`.
fn cors_listed_exec(cfg: &str, lower: &Vec<char>) -> (r: bool)
    ensures
        r == cors_listed(cfg@, lower@),
{
    let c = chars_of(cfg);
    let pieces = split_bounds(&c, ',');
    let ghost segs = segments(c@, ',');
    let mut i: usize = 0;
    while i < pieces.len()
        invariant
            c@ == cfg@,
            segs == segments(c@, ','),
            pieces.len() == segs.len(),
            i <= pieces.len(),
            forall|j: int| #![trigger pieces@[j]] 0 <= j < pieces.len() ==> pieces@[j].0 <= pieces@[j].1 <= c.len(),
            forall|j: int| 0 <= j < pieces.len() ==> #[trigger] segs[j] == c@.subrange(pieces@[j].0 as int, pieces@[j].1 as int),
            forall|j: int|
                0 <= j < i ==> !({
                    let e = lower_seq(trim_seq(#[trigger] segs[j]));
                    e.len() > 0 && e == lower@
                }),
        decreases pieces.len() - i,
    {
        let (a, b) = pieces[i];
        assert(pieces@[i as int].0 <= pieces@[i as int].1 <= c.len());
        let (x, y) = trim_bounds(&c, a, b);
        let t = slice_of(&c, x, y);
        let e = to_lower(&t);
        assert(segs[i as int] == c@.subrange(a as int, b as int));
        if e.len() > 0 && crate::text::chars_eq(&e, lower) {
            return true;
        }
        i = i + 1;
    }
    false
}

/// Whether a browser Origin header is trusted: a local origin (localhost /
/// 127.0.0.1, any port, http or https) or one listed in `cors_config`, the value
/// of the `api-cors-origin` option (comma separated, e.g.
/// `http://192.168.1.10:3000`).
pub fn origin_allowed(origin: &str, cors_config: &str) -> (r: bool)
    ensures
        r == origin_trusted(origin@, cors_config@),
{
    let o = chars_of(origin);
    let lower = to_lower(&o);
    let n = lower.len();
    let http = chars_of("http://");
    let https = chars_of("https://");
    assert(lower@.subrange(0, n as int) == lower@);
    let start = if starts_with_at(&lower, 0, n, &http) {
        http.len()
    } else if starts_with_at(&lower, 0, n, &https) {
        https.len()
    } else {
        return false;
    };
    assert(lower@.skip(start as int) == lower@.subrange(start as int, n as int));
    let e1 = first_segment_end(&lower, '/', start, n);
    let e2 = first_segment_end(&lower, '#', start, e1);
    let (a, b) = host_bounds(&lower, start, e2);
    if is_local_host_in(&lower, a, b) {
        return true;
    }
    cors_listed_exec(cors_config, &lower)
}

// ---------------------------------------------------------------------------
// Token
// ---------------------------------------------------------------------------

/// The first `Authorization: Bearer <token>` header's token, trimmed. Headers
/// named Authorization that do not start with `Bearer ` (after trimming) are
/// passed over.
pub open spec fn bearer_token(hs: Seq<(Seq<char>, Seq<char>)>) -> Option<Seq<char>>
    decreases hs.len(),
{
    if hs.len() == 0 {
        None
    } else if eq_ignore_case(hs[0].0, "Authorization"@) && starts_with(
        trim_seq(hs[0].1),
        "Bearer "@,
    ) {
        Some(trim_seq(trim_seq(hs[0].1).skip("Bearer "@.len() as int)))
    } else {
        bearer_token(hs.skip(1))
    }
}

/// The token a request carries: the bearer token, else the `token=` query
/// parameter, percent-decoded like every query parameter, else the empty string.
pub open spec fn request_token(hs: Seq<(Seq<char>, Seq<char>)>, query: Seq<char>) -> Seq<char> {
    match bearer_token(hs) {
        Some(t) => t,
        None => match query_raw_value(query, "token="@) {
            Some(t) => percent_decode_text(t),
            None => seq![],
        },
    }
}

/// The token a request carries, see [`request_token`].
pub fn extract_token(headers: &Vec<HeaderLine>, query: &str) -> (r: String)
    ensures
        r@ == request_token(headers_view(headers@), query@),
{
    let ghost hv = headers_view(headers@);
    let authorization = chars_of("Authorization");
    let bearer = chars_of("Bearer ");
    assert(hv.skip(0) == hv);
    let mut i: usize = 0;
    while i < headers.len()
        invariant
            i <= headers.len(),
            hv == headers_view(headers@),
            authorization@ == "Authorization"@,
            bearer@ == "Bearer "@,
            bearer_token(hv) == bearer_token(hv.skip(i as int)),
        decreases headers.len() - i,
    {
        assert(hv.skip(i as int)[0] == (headers@[i as int].name@, headers@[i as int].value@));
        let name = chars_of(headers[i].name.as_str());
        if eq_ignore_ascii_case(&name, &authorization) {
            let v = chars_of(headers[i].value.as_str());
            let (a, b) = trim_bounds(&v, 0, v.len());
            assert(v@.subrange(0, v.len() as int) == v@);
            if starts_with_at(&v, a, b, &bearer) {
                let ghost t = v@.subrange(a as int, b as int);
                assert(t.skip(bearer@.len() as int) == v@.subrange(a + bearer.len(), b as int));
                let (c, d) = trim_bounds(&v, a + bearer.len(), b);
                let tok = slice_of(&v, c, d);
                return string_from(&tok);
            }
        }
        assert(hv.skip(i as int).skip(1) == hv.skip(i + 1));
        i = i + 1;
    }
    let q = chars_of(query);
    let prefix = chars_of("token=");
    match query_raw_bounds(&q, &prefix) {
        Some((a, b)) => {
            let t = slice_of(&q, a, b);
            percent_decode(string_from(&t).as_str())
        },
        None => string_from(&Vec::new()),
    }
}

// ---------------------------------------------------------------------------
// Routing
// ---------------------------------------------------------------------------

/// The endpoints the API serves.
#[derive(PartialEq, Eq, Structural, Clone, Copy, Debug)]
pub enum Endpoint {
    /// `GET /id`
    Id,
    /// `GET /status`
    Status,
    /// `POST /connect`
    Connect,
    /// `POST /disconnect`
    Disconnect,
    /// `POST /request-permission`
    RequestPermission,
    /// `POST /password`
    Password,
    /// `GET /sessions`
    Sessions,
    /// `POST /approve`
    Approve,
    /// `POST /control`
    Control,
    /// `POST /permission`
    Permission,
    /// `POST /terminate`
    Terminate,
    /// `POST /dismiss`
    Dismiss,
}

/// What becomes of a request at the front door.
pub enum Verdict {
    /// Answered here, with this status and JSON body.
    Reply { status: u16, body: String },
    /// A CORS preflight: 204, with the preflight headers when there is a CORS origin.
    Preflight,
    /// Handed to an endpoint, with the request's query string.
    Serve { endpoint: Endpoint, query: String },
}

/// The front door's decision, with the origin the response echoes in
/// `Access-Control-Allow-Origin` (empty: no CORS headers).
pub struct Routing {
    pub cors_origin: String,
    pub verdict: Verdict,
}

pub enum VerdictView {
    Reply { status: u16, body: Seq<char> },
    Preflight,
    Serve { endpoint: Endpoint, query: Seq<char> },
}

pub struct RoutingView {
    pub cors_origin: Seq<char>,
    pub verdict: VerdictView,
}

impl View for Verdict {
    type V = VerdictView;

    open spec fn view(&self) -> VerdictView {
        match self {
            Verdict::Reply { status, body } => VerdictView::Reply { status: *status, body: body@ },
            Verdict::Preflight => VerdictView::Preflight,
            Verdict::Serve { endpoint, query } => VerdictView::Serve {
                endpoint: *endpoint,
                query: query@,
            },
        }
    }
}

impl View for Routing {
    type V = RoutingView;

    open spec fn view(&self) -> RoutingView {
        RoutingView { cors_origin: self.cors_origin@, verdict: self.verdict@ }
    }
}

/// The endpoint a method and path name, if any.
pub open spec fn endpoint_for(method: HttpMethod, path: Seq<char>) -> Option<Endpoint> {
    match method {
        HttpMethod::Get => if path == "/id"@ {
            Some(Endpoint::Id)
        } else if path == "/status"@ {
            Some(Endpoint::Status)
        } else if path == "/sessions"@ {
            Some(Endpoint::Sessions)
        } else {
            None
        },
        HttpMethod::Post => if path == "/connect"@ {
            Some(Endpoint::Connect)
        } else if path == "/disconnect"@ {
            Some(Endpoint::Disconnect)
        } else if path == "/request-permission"@ {
            Some(Endpoint::RequestPermission)
        } else if path == "/password"@ {
            Some(Endpoint::Password)
        } else if path == "/approve"@ {
            Some(Endpoint::Approve)
        } else if path == "/control"@ {
            Some(Endpoint::Control)
        } else if path == "/permission"@ {
            Some(Endpoint::Permission)
        } else if path == "/terminate"@ {
            Some(Endpoint::Terminate)
        } else if path == "/dismiss"@ {
            Some(Endpoint::Dismiss)
        } else {
            None
        },
        _ => None,
    }
}

/// Whether some method reaches an endpoint at `path`.
pub open spec fn known_path(path: Seq<char>) -> bool {
    endpoint_for(HttpMethod::Get, path) is Some || endpoint_for(HttpMethod::Post, path) is Some
}

/// The path of a request target: everything before the first `?`.
pub open spec fn url_path(url: Seq<char>) -> Seq<char> {
    first_segment(url, '?')
}

/// The query string of a request target: everything after the first `?`, or empty.
pub open spec fn url_query(url: Seq<char>) -> Seq<char> {
    match find_char(url, '?') {
        Some(i) => url.skip(i + 1),
        None => seq![],
    }
}

/// Whether the request declares a body longer than [`MAX_BODY_BYTES`]: its first
/// `Content-Length` header, trimmed, reads as a `usize` above the cap. A value that
/// does not read as a `usize` is not held against the request.
pub open spec fn declares_too_large(hs: Seq<(Seq<char>, Seq<char>)>) -> bool {
    match header_value(hs, "Content-Length"@) {
        Some(v) => match parse_usize(trim_seq(v)) {
            Some(n) => n > MAX_BODY_BYTES,
            None => false,
        },
        None => false,
    }
}

/// The decision for a request whose Host and Origin have been accepted.
pub open spec fn route_accepted(
    method: HttpMethod,
    url: Seq<char>,
    hs: Seq<(Seq<char>, Seq<char>)>,
    token: Seq<char>,
) -> VerdictView {
    if declares_too_large(hs) {
        VerdictView::Reply { status: 413, body: "{\"error\":\"payload too large\"}"@ }
    } else if method == HttpMethod::Options {
        VerdictView::Preflight
    } else if token.len() == 0 {
        VerdictView::Reply { status: 401, body: "{\"error\":\"api-token not configured\"}"@ }
    } else {
        let query = url_query(url);
        let provided = request_token(hs, query);
        if provided.len() == 0 || provided != token {
            VerdictView::Reply { status: 401, body: "{\"error\":\"unauthorized\"}"@ }
        } else {
            match endpoint_for(method, url_path(url)) {
                Some(e) => VerdictView::Serve { endpoint: e, query },
                None => if !known_path(url_path(url)) && (method == HttpMethod::Get || method
                    == HttpMethod::Post) {
                    VerdictView::Reply { status: 404, body: "{\"error\":\"not found\"}"@ }
                } else {
                    VerdictView::Reply { status: 405, body: "{\"error\":\"method not allowed\"}"@ }
                },
            }
        }
    }
}

/// The trimmed `Origin` header, or empty when there is none.
pub open spec fn request_origin(hs: Seq<(Seq<char>, Seq<char>)>) -> Seq<char> {
    match header_value(hs, "Origin"@) {
        Some(o) => trim_seq(o),
        None => seq![],
    }
}

/// The front door, in order: a foreign Host is refused (403); an Origin that is
/// present and not trusted is refused (403), neither with CORS headers; from here
/// on the response echoes the Origin. A declared body above the cap is refused
/// (413); a preflight is answered; without a configured token (`token`, the
/// `api-token` option) everything is refused (401), as is a request whose token is
/// missing or different (401); then the method and path pick the endpoint. A path
/// that some endpoint has, asked for with another method, is 405; an unknown path
/// is 404 for GET and POST, and 405 for any other method.
pub open spec fn route(
    method: HttpMethod,
    url: Seq<char>,
    hs: Seq<(Seq<char>, Seq<char>)>,
    token: Seq<char>,
    cors_config: Seq<char>,
) -> RoutingView {
    if !host_allowed_value(hs) {
        RoutingView {
            cors_origin: seq![],
            verdict: VerdictView::Reply { status: 403, body: "{\"error\":\"host not allowed\"}"@ },
        }
    } else {
        let origin = request_origin(hs);
        if origin.len() > 0 && !origin_trusted(origin, cors_config) {
            RoutingView {
                cors_origin: seq![],
                verdict: VerdictView::Reply {
                    status: 403,
                    body: "{\"error\":\"origin not allowed\"}"@,
                },
            }
        } else {
            RoutingView { cors_origin: origin, verdict: route_accepted(method, url, hs, token) }
        }
    }
}

fn reply(status: u16, body: &str) -> (v: Verdict)
    ensures
        v@ == (VerdictView::Reply { status, body: body@ }),
{
    Verdict::Reply { status, body: owned(body) }
}

/// The endpoint a method and path name, see [`endpoint_for`].
fn endpoint_of(method: HttpMethod, path: &Vec<char>) -> (r: Option<Endpoint>)
    ensures
        r == endpoint_for(method, path@),
{
    match method {
        HttpMethod::Get => if chars_eq_str(path, "/id") {
            Some(Endpoint::Id)
        } else if chars_eq_str(path, "/status") {
            Some(Endpoint::Status)
        } else if chars_eq_str(path, "/sessions") {
            Some(Endpoint::Sessions)
        } else {
            None
        },
        HttpMethod::Post => if chars_eq_str(path, "/connect") {
            Some(Endpoint::Connect)
        } else if chars_eq_str(path, "/disconnect") {
            Some(Endpoint::Disconnect)
        } else if chars_eq_str(path, "/request-permission") {
            Some(Endpoint::RequestPermission)
        } else if chars_eq_str(path, "/password") {
            Some(Endpoint::Password)
        } else if chars_eq_str(path, "/approve") {
            Some(Endpoint::Approve)
        } else if chars_eq_str(path, "/control") {
            Some(Endpoint::Control)
        } else if chars_eq_str(path, "/permission") {
            Some(Endpoint::Permission)
        } else if chars_eq_str(path, "/terminate") {
            Some(Endpoint::Terminate)
        } else if chars_eq_str(path, "/dismiss") {
            Some(Endpoint::Dismiss)
        } else {
            None
        },
        _ => None,
    }
}

/// Whether the request declares a body above the cap, see [`declares_too_large`].
fn too_large(headers: &Vec<HeaderLine>) -> (r: bool)
    ensures
        r == declares_too_large(headers_view(headers@)),
{
    match request_header(headers, "Content-Length") {
        Some(v) => {
            let c = chars_of(v.as_str());
            assert(c@.subrange(0, c.len() as int) == c@);
            let (a, b) = trim_bounds(&c, 0, c.len());
            match parse_usize_in(&c, a, b) {
                Some(n) => n > MAX_BODY_BYTES,
                None => false,
            }
        },
        None => false,
    }
}

/// Decide what becomes of a request: refused here, answered as a preflight, or
/// handed to an endpoint, and which origin the response echoes. `api_token` is the
/// `api-token` option and `cors_config` the `api-cors-origin` option.
pub fn handle(request: &RequestHead, api_token: &str, cors_config: &str) -> (r: Routing)
    ensures
        r@ == route(request.method, request.url@, headers_view(request.headers@), api_token@, cors_config@),
{
    let ghost hs = headers_view(request.headers@);
    let empty: Vec<char> = Vec::new();
    if !host_allowed(&request.headers) {
        return Routing {
            cors_origin: string_from(&empty),
            verdict: reply(403, "{\"error\":\"host not allowed\"}"),
        };
    }
    let origin_chars = match request_header(&request.headers, "Origin") {
        Some(o) => {
            let c = chars_of(o.as_str());
            crate::text::trim(&c)
        },
        None => Vec::new(),
    };
    assert(origin_chars@ == request_origin(hs));
    let origin = string_from(&origin_chars);
    if origin_chars.len() > 0 && !origin_allowed(origin.as_str(), cors_config) {
        return Routing {
            cors_origin: string_from(&empty),
            verdict: reply(403, "{\"error\":\"origin not allowed\"}"),
        };
    }
    let verdict = if too_large(&request.headers) {
        reply(413, "{\"error\":\"payload too large\"}")
    } else if request.method == HttpMethod::Options {
        Verdict::Preflight
    } else if chars_of(api_token).len() == 0 {
        reply(401, "{\"error\":\"api-token not configured\"}")
    } else {
        let url = chars_of(request.url.as_str());
        let q = find_char_in(&url, '?', 0, url.len());
        assert(url@.subrange(0, url.len() as int) == url@);
        let query_chars = if q < url.len() {
            assert(url@.skip(q + 1) == url@.subrange(q + 1, url.len() as int));
            slice_of(&url, q + 1, url.len())
        } else {
            Vec::new()
        };
        assert(query_chars@ == url_query(url@));
        let query = string_from(&query_chars);
        let provided = extract_token(&request.headers, query.as_str());
        let expected = chars_of(api_token);
        let given = chars_of(provided.as_str());
        if given.len() == 0 || !crate::text::chars_eq(&given, &expected) {
            reply(401, "{\"error\":\"unauthorized\"}")
        } else {
            assert(url@.take(q as int) == url@.subrange(0, q as int));
            let path = slice_of(&url, 0, q);
            assert(path@ == url_path(url@));
            match endpoint_of(request.method, &path) {
                Some(e) => Verdict::Serve { endpoint: e, query },
                None => if endpoint_of(HttpMethod::Get, &path).is_none() && endpoint_of(
                    HttpMethod::Post,
                    &path,
                ).is_none() && (request.method == HttpMethod::Get || request.method
                    == HttpMethod::Post) {
                    reply(404, "{\"error\":\"not found\"}")
                } else {
                    reply(405, "{\"error\":\"method not allowed\"}")
                },
            }
        }
    };
    Routing { cors_origin: origin, verdict }
}

// ---------------------------------------------------------------------------
// What the front door guarantees
// ---------------------------------------------------------------------------

/// A request reaches an endpoint only when its Host names this machine, its Origin
/// is absent or trusted, a token is configured, and the request carries exactly
/// that token.
pub proof fn lemma_served_only_when_authorized(
    method: HttpMethod,
    url: Seq<char>,
    hs: Seq<(Seq<char>, Seq<char>)>,
    token: Seq<char>,
    cors_config: Seq<char>,
)
    ensures
        route(method, url, hs, token, cors_config).verdict is Serve ==> {
            &&& host_allowed_value(hs)
            &&& request_origin(hs).len() == 0 || origin_trusted(request_origin(hs), cors_config)
            &&& token.len() > 0
            &&& request_token(hs, url_query(url)) == token
            &&& !declares_too_large(hs)
        },
{
}

/// A response echoes an origin in `Access-Control-Allow-Origin` only when that
/// origin is trusted.
pub proof fn lemma_cors_only_for_trusted_origins(
    method: HttpMethod,
    url: Seq<char>,
    hs: Seq<(Seq<char>, Seq<char>)>,
    token: Seq<char>,
    cors_config: Seq<char>,
)
    ensures
        ({
            let r = route(method, url, hs, token, cors_config);
            r.cors_origin.len() > 0 ==> origin_trusted(r.cors_origin, cors_config)
        }),
{
}

/// With no `api-token` configured, no request reaches an endpoint, and every
/// request that is not refused earlier (Host, Origin, size) and is not a preflight
/// is answered 401 `api-token not configured`.
pub proof fn lemma_unconfigured_token_refuses_everything(
    method: HttpMethod,
    url: Seq<char>,
    hs: Seq<(Seq<char>, Seq<char>)>,
    cors_config: Seq<char>,
)
    ensures
        !(route(method, url, hs, seq![], cors_config).verdict is Serve),
        host_allowed_value(hs) && (request_origin(hs).len() == 0 || origin_trusted(
            request_origin(hs),
            cors_config,
        )) && !declares_too_large(hs) && method != HttpMethod::Options ==> route(
            method,
            url,
            hs,
            seq![],
            cors_config,
        ).verdict == (VerdictView::Reply {
            status: 401,
            body: "{\"error\":\"api-token not configured\"}"@,
        }),
{
}

/// A preflight from an accepted Host and Origin is answered without a token.
pub proof fn lemma_preflight_needs_no_token(
    url: Seq<char>,
    hs: Seq<(Seq<char>, Seq<char>)>,
    token: Seq<char>,
    cors_config: Seq<char>,
)
    requires
        host_allowed_value(hs),
        request_origin(hs).len() == 0 || origin_trusted(request_origin(hs), cors_config),
        !declares_too_large(hs),
    ensures
        route(HttpMethod::Options, url, hs, token, cors_config).verdict is Preflight,
{
}

/// A request whose token differs from the configured one is refused with 401,
/// whatever endpoint it names.
pub proof fn lemma_wrong_token_refused(
    method: HttpMethod,
    url: Seq<char>,
    hs: Seq<(Seq<char>, Seq<char>)>,
    token: Seq<char>,
    cors_config: Seq<char>,
)
    requires
        host_allowed_value(hs),
        request_origin(hs).len() == 0 || origin_trusted(request_origin(hs), cors_config),
        !declares_too_large(hs),
        method != HttpMethod::Options,
        token.len() > 0,
        request_token(hs, url_query(url)) != token,
    ensures
        route(method, url, hs, token, cors_config).verdict == (VerdictView::Reply {
            status: 401,
            body: "{\"error\":\"unauthorized\"}"@,
        }),
{
}

proof fn lemma_find_char_none(s: Seq<char>, c: char, from: int)
    requires
        0 <= from,
        forall|j: int| from <= j < s.len() ==> s[j] != c,
    ensures
        crate::text::find_char_from(s, c, from) is None,
    decreases s.len() - from,
{
    if from < s.len() {
        lemma_find_char_none(s, c, from + 1);
    }
}

/// An `http` or `https` origin that `api-cors-origin` lists as its only entry is
/// trusted, whatever its host and whatever the case of its letters.
pub proof fn lemma_listed_origin_trusted(origin: Seq<char>)
    requires
        origin_authority(lower_seq(origin)) is Some,
        !origin.contains(','),
        origin.len() > 0,
        !is_white_space(origin[0]),
        !is_white_space(origin.last()),
    ensures
        origin_trusted(origin, origin),
{
    assert forall|j: int| 0 <= j < origin.len() implies origin[j] != ',' by {
        if origin[j] == ',' {
            assert(origin.contains(','));
        }
    }
    lemma_find_char_none(origin, ',', 0);
    assert(segments(origin, ',') == seq![origin]);
    assert(trim_start_seq(origin) == origin);
    assert(trim_end_seq(origin) == origin);
    let e = lower_seq(trim_seq(segments(origin, ',')[0]));
    assert(e == lower_seq(origin));
    assert(cors_listed(origin, lower_seq(origin)));
}

/// A request that passed the Host, Origin, size and token checks and names a path
/// some endpoint has, with a method that endpoint does not take, is answered 405;
/// a GET or POST to a path no endpoint has is answered 404.
pub proof fn lemma_wrong_method_and_unknown_path(
    method: HttpMethod,
    url: Seq<char>,
    hs: Seq<(Seq<char>, Seq<char>)>,
    token: Seq<char>,
)
    requires
        !declares_too_large(hs),
        method != HttpMethod::Options,
        token.len() > 0,
        request_token(hs, url_query(url)) == token,
        endpoint_for(method, url_path(url)) is None,
    ensures
        known_path(url_path(url)) ==> route_accepted(method, url, hs, token) == (VerdictView::Reply {
            status: 405,
            body: "{\"error\":\"method not allowed\"}"@,
        }),
        !known_path(url_path(url)) && (method == HttpMethod::Get || method == HttpMethod::Post)
            ==> route_accepted(method, url, hs, token) == (VerdictView::Reply {
            status: 404,
            body: "{\"error\":\"not found\"}"@,
        }),
{
}

/// Whether `n` is the header name `Authorization` in any mix of letter cases.
pub open spec fn authorization_in_any_case(n: Seq<char>) -> bool {
    &&& n.len() == 13
    &&& forall|i: int| 0 <= i < 13 ==> #[trigger] n[i] == "authorization"@[i] || n[i] == "AUTHORIZATION"@[i]
}

/// A bearer token is found under the header name `Authorization` written in any
/// case (`authorization`, `AUTHORIZATION`, ...), as HTTP header names are: the
/// token after `Bearer ` is the request's token, whatever the query says.
pub proof fn lemma_bearer_token_any_header_case(n: Seq<char>, t: Seq<char>, q: Seq<char>)
    requires
        authorization_in_any_case(n),
        t.len() > 0,
        !is_white_space(t[0]),
        !is_white_space(t.last()),
    ensures
        request_token(seq![(n, "Bearer "@ + t)], q) == t,
{
    reveal_strlit("authorization");
    reveal_strlit("AUTHORIZATION");
    reveal_strlit("Authorization");
    reveal_strlit("Bearer ");
    let v = "Bearer "@ + t;
    let hs = seq![(n, v)];
    assert(lower_seq(n) =~= lower_seq("Authorization"@)) by {
        assert forall|i: int| 0 <= i < 13 implies #[trigger] lower_seq(n)[i] == lower_seq("Authorization"@)[i] by {
            assert(n[i] == "authorization"@[i] || n[i] == "AUTHORIZATION"@[i]);
        }
    }
    assert(eq_ignore_case(hs[0].0, "Authorization"@));
    assert(v[0] == 'B');
    assert(trim_start_seq(v) == v);
    assert(v.last() == t.last());
    assert(trim_end_seq(v) == v);
    assert(trim_seq(v) == v);
    assert(v.take(7) =~= "Bearer "@);
    assert(starts_with(trim_seq(hs[0].1), "Bearer "@));
    assert(v.skip(7) =~= t);
    assert(trim_start_seq(t) == t);
    assert(trim_end_seq(t) == t);
    assert(bearer_token(hs) == Some(t));
}

/// The scheme, host and port of a local origin: `http://` or `https://`, then
/// `localhost` or `127.0.0.1`, then nothing or `:` and a port.
pub open spec fn local_origin(https: bool, loopback: bool, port: Option<Seq<char>>) -> Seq<char> {
    let scheme = if https { "https://"@ } else { "http://"@ };
    let host = if loopback { "127.0.0.1"@ } else { "localhost"@ };
    match port {
        Some(p) => scheme + host + ":"@ + p,
        None => scheme + host,
    }
}

/// Local origins are trusted, on any port and whatever `api-cors-origin` holds.
pub proof fn lemma_local_origins_trusted(https: bool, loopback: bool, port: Option<Seq<char>>, cors_config: Seq<char>)
    requires
        port matches Some(p) ==> all_digits(p),
    ensures
        origin_trusted(local_origin(https, loopback, port), cors_config),
{
    reveal_strlit("https://");
    reveal_strlit("http://");
    reveal_strlit("127.0.0.1");
    reveal_strlit("localhost");
    reveal_strlit(":");
    let scheme = if https { "https://"@ } else { "http://"@ };
    let host = if loopback { "127.0.0.1"@ } else { "localhost"@ };
    let tail = match port {
        Some(p) => host + ":"@ + p,
        None => host,
    };
    let o = local_origin(https, loopback, port);
    assert(o =~= scheme + tail);
    // No upper-case letter anywhere: lower-casing changes nothing.
    assert forall|i: int| 0 <= i < o.len() implies !('A' <= #[trigger] o[i] <= 'Z') by {
        if i >= scheme.len() + host.len() + 1 {
            assert(o[i] == port->0[i - scheme.len() - host.len() - 1]);
        }
    }
    assert(lower_seq(o) =~= o);
    let rest = o.skip(scheme.len() as int);
    assert(rest =~= tail);
    if https {
        assert(!starts_with(o, "http://"@)) by {
            assert(o.take(7)[4] != "http://"@[4]);
        }
        assert(starts_with(o, "https://"@)) by {
            assert(o.take(8) =~= "https://"@);
        }
    } else {
        assert(starts_with(o, "http://"@)) by {
            assert(o.take(7) =~= "http://"@);
        }
    }
    // No '/' and no '#' after the scheme: the authority is all of it.
    assert forall|j: int| 0 <= j < tail.len() implies tail[j] != '/' && tail[j] != '#' by {
        if j >= host.len() + 1 {
            assert(tail[j] == port->0[j - host.len() - 1]);
        }
    }
    lemma_find_char_none(tail, '/', 0);
    lemma_find_char_none(tail, '#', 0);
    assert(origin_authority(o) == Some(tail));
    // The port comes off at the last ':'.
    match port {
        Some(p) => {
            let k = host.len() as int;
            assert(tail[k] == ':');
            assert forall|j: int| k < j < tail.len() implies tail[j] != ':' by {
                assert(tail[j] == p[j - k - 1]);
            }
            assert(is_last_index_of(tail, ':', k));
            let i = choose|i: int| is_last_index_of(tail, ':', i);
            lemma_last_index_unique(tail, ':', i, k);
            assert(tail.skip(k + 1) =~= p);
            assert(tail.take(k) =~= host);
            assert(strip_port(tail) == host);
        },
        None => {
            assert forall|i: int| !is_last_index_of(tail, ':', i) by {
                if 0 <= i < tail.len() {
                    assert(tail[i] != ':');
                }
            }
            assert(strip_port(tail) == host);
        },
    }
    assert(trim_brackets_start(host) == host);
    assert(trim_brackets_end(host) == host);
    assert(is_local_host(host_of(tail)));
}

} // verus!
