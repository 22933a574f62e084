use gatedesk::http_api::{
    extract_token, handle, host_allowed, origin_allowed, request_header,
    tighten_config_permissions, Endpoint, HeaderLine, HttpMethod, RequestHead, Routing, Verdict,
    CONFIG_FILE_MODE, MAX_BODY_BYTES, PORT,
};
use gatedesk::sessions::Platform;

fn header(name: &str, value: &str) -> HeaderLine {
    HeaderLine { name: name.to_string(), value: value.to_string() }
}

fn request(method: HttpMethod, url: &str, headers: Vec<HeaderLine>) -> RequestHead {
    RequestHead { method, url: url.to_string(), headers }
}

fn local() -> Vec<HeaderLine> {
    vec![header("Host", "127.0.0.1:21120")]
}

fn reply_of(r: &Routing) -> (u16, String) {
    match &r.verdict {
        Verdict::Reply { status, body } => (*status, body.clone()),
        Verdict::Preflight => panic!("preflight"),
        Verdict::Serve { .. } => panic!("served"),
    }
}

fn served(r: &Routing) -> (Endpoint, String) {
    match &r.verdict {
        Verdict::Serve { endpoint, query } => (*endpoint, query.clone()),
        Verdict::Preflight => panic!("preflight"),
        Verdict::Reply { status, body } => panic!("reply {} {}", status, body),
    }
}

#[test]
fn constants_are_the_documented_ones() {
    assert_eq!(PORT, 21120);
    assert_eq!(MAX_BODY_BYTES, 1024);
    assert_eq!(CONFIG_FILE_MODE, 0o600);
}

#[test]
fn config_file_is_tightened_on_unix_only() {
    assert_eq!(tighten_config_permissions(Platform::Unix), Some(0o600));
    assert_eq!(tighten_config_permissions(Platform::Windows), None);
    assert_eq!(tighten_config_permissions(Platform::Other), None);
}

#[test]
fn request_header_ignores_case_and_takes_the_first() {
    let hs = vec![header("content-type", "a"), header("Content-Type", "b")];
    assert_eq!(request_header(&hs, "Content-Type"), Some("a".to_string()));
    assert_eq!(request_header(&hs, "Origin"), None);
}

#[test]
fn host_check_accepts_only_this_machine() {
    assert!(host_allowed(&vec![header("Host", "localhost")]));
    assert!(host_allowed(&vec![header("Host", "LOCALHOST:21120")]));
    assert!(host_allowed(&vec![header("Host", "127.0.0.1:21120")]));
    assert!(host_allowed(&vec![header("host", " 127.0.0.1 ")]));
    assert!(!host_allowed(&vec![header("Host", "evil.example")]));
    assert!(!host_allowed(&vec![header("Host", "localhost.evil.example")]));
    assert!(!host_allowed(&vec![header("Host", "localhost:abc")]));
    assert!(!host_allowed(&vec![]));
}

#[test]
fn local_origins_are_trusted_on_any_port_and_scheme() {
    assert!(origin_allowed("http://localhost:3000", ""));
    assert!(origin_allowed("https://127.0.0.1", ""));
    assert!(origin_allowed("HTTP://LocalHost:8080/path", ""));
    assert!(!origin_allowed("ftp://localhost", ""));
    assert!(!origin_allowed("http://evil.example", ""));
    assert!(!origin_allowed("http://localhost.evil.example", ""));
}

#[test]
fn listed_origins_are_trusted() {
    let cfg = " http://192.168.1.10:3000 , ,https://portal.example ";
    assert!(origin_allowed("http://192.168.1.10:3000", cfg));
    assert!(origin_allowed("HTTPS://Portal.Example", cfg));
    assert!(!origin_allowed("http://192.168.1.10:3001", cfg));
    assert!(!origin_allowed("http://192.168.1.10:3000", ""));
}

#[test]
fn token_from_bearer_header_then_query() {
    let hs = vec![header("Authorization", "  Bearer   abc  ")];
    assert_eq!(extract_token(&hs, "token=zzz"), "abc");
    assert_eq!(extract_token(&vec![], "a=1&token=xyz&token=q"), "xyz");
    assert_eq!(extract_token(&vec![header("Authorization", "Basic abc")], "x=1"), "");
    assert_eq!(extract_token(&vec![], ""), "");
    assert_eq!(extract_token(&vec![], "token=a%2Bb%2Fc"), "a+b/c");
}

#[test]
fn foreign_host_is_refused_without_cors() {
    let r = handle(&request(HttpMethod::Get, "/id", vec![header("Host", "evil.example")]), "t", "");
    assert_eq!(reply_of(&r), (403, "{\"error\":\"host not allowed\"}".to_string()));
    assert_eq!(r.cors_origin, "");
}

#[test]
fn untrusted_origin_is_refused_without_cors() {
    let mut hs = local();
    hs.push(header("Origin", "http://evil.example"));
    let r = handle(&request(HttpMethod::Get, "/id?token=t", hs), "t", "");
    assert_eq!(reply_of(&r), (403, "{\"error\":\"origin not allowed\"}".to_string()));
    assert_eq!(r.cors_origin, "");
}

#[test]
fn oversized_body_is_refused_with_cors() {
    let mut hs = local();
    hs.push(header("Origin", " http://localhost:3000 "));
    hs.push(header("Content-Length", " 1025 "));
    let r = handle(&request(HttpMethod::Post, "/password?token=t", hs), "t", "");
    assert_eq!(reply_of(&r), (413, "{\"error\":\"payload too large\"}".to_string()));
    assert_eq!(r.cors_origin, "http://localhost:3000");
}

#[test]
fn body_at_the_cap_or_unreadable_length_passes() {
    let mut hs = local();
    hs.push(header("Content-Length", "1024"));
    let r = handle(&request(HttpMethod::Post, "/password?token=t", hs), "t", "");
    assert_eq!(served(&r).0, Endpoint::Password);
    let mut hs = local();
    hs.push(header("Content-Length", "lots"));
    let r = handle(&request(HttpMethod::Post, "/password?token=t", hs), "t", "");
    assert_eq!(served(&r).0, Endpoint::Password);
}

#[test]
fn preflight_needs_no_token() {
    let mut hs = local();
    hs.push(header("Origin", "http://localhost:3000"));
    let r = handle(&request(HttpMethod::Options, "/connect", hs), "", "");
    assert!(matches!(r.verdict, Verdict::Preflight));
    assert_eq!(r.cors_origin, "http://localhost:3000");
}

#[test]
fn missing_token_configuration_refuses_everything() {
    let mut hs = local();
    hs.push(header("Authorization", "Bearer anything"));
    let r = handle(&request(HttpMethod::Get, "/id", hs), "", "");
    assert_eq!(reply_of(&r), (401, "{\"error\":\"api-token not configured\"}".to_string()));
}

#[test]
fn wrong_or_missing_token_is_unauthorized() {
    let r = handle(&request(HttpMethod::Get, "/id", local()), "secret", "");
    assert_eq!(reply_of(&r), (401, "{\"error\":\"unauthorized\"}".to_string()));
    let r = handle(&request(HttpMethod::Get, "/id?token=Secret", local()), "secret", "");
    assert_eq!(reply_of(&r), (401, "{\"error\":\"unauthorized\"}".to_string()));
}

#[test]
fn authorized_requests_reach_their_endpoint() {
    let mut hs = local();
    hs.push(header("Authorization", "Bearer secret"));
    let r = handle(&request(HttpMethod::Get, "/id", hs), "secret", "");
    assert_eq!(served(&r), (Endpoint::Id, "".to_string()));
    let r = handle(&request(HttpMethod::Get, "/id?token=a%2Bb%2Fc", local()), "a+b/c", "");
    assert_eq!(served(&r), (Endpoint::Id, "token=a%2Bb%2Fc".to_string()));
    let r = handle(&request(HttpMethod::Post, "/connect?id=123&token=secret", local()), "secret", "");
    assert_eq!(served(&r), (Endpoint::Connect, "id=123&token=secret".to_string()));
    let table = [
        (HttpMethod::Get, "/status", Endpoint::Status),
        (HttpMethod::Post, "/disconnect", Endpoint::Disconnect),
        (HttpMethod::Post, "/request-permission", Endpoint::RequestPermission),
        (HttpMethod::Post, "/password", Endpoint::Password),
        (HttpMethod::Get, "/sessions", Endpoint::Sessions),
        (HttpMethod::Post, "/approve", Endpoint::Approve),
        (HttpMethod::Post, "/control", Endpoint::Control),
        (HttpMethod::Post, "/permission", Endpoint::Permission),
        (HttpMethod::Post, "/terminate", Endpoint::Terminate),
        (HttpMethod::Post, "/dismiss", Endpoint::Dismiss),
    ];
    for (m, path, e) in table {
        let url = format!("{}?token=secret", path);
        let r = handle(&request(m, &url, local()), "secret", "");
        assert_eq!(served(&r).0, e);
    }
}

#[test]
fn unknown_paths_and_methods() {
    let r = handle(&request(HttpMethod::Get, "/nope?token=s", local()), "s", "");
    assert_eq!(reply_of(&r), (404, "{\"error\":\"not found\"}".to_string()));
    let r = handle(&request(HttpMethod::Post, "/nope?token=s", local()), "s", "");
    assert_eq!(reply_of(&r), (404, "{\"error\":\"not found\"}".to_string()));
    let r = handle(&request(HttpMethod::Post, "/id?token=s", local()), "s", "");
    assert_eq!(reply_of(&r), (405, "{\"error\":\"method not allowed\"}".to_string()));
    let r = handle(&request(HttpMethod::Get, "/connect?token=s", local()), "s", "");
    assert_eq!(reply_of(&r), (405, "{\"error\":\"method not allowed\"}".to_string()));
    let r = handle(&request(HttpMethod::Other, "/id?token=s", local()), "s", "");
    assert_eq!(reply_of(&r), (405, "{\"error\":\"method not allowed\"}".to_string()));
    let r = handle(&request(HttpMethod::Other, "/nope?token=s", local()), "s", "");
    assert_eq!(reply_of(&r), (405, "{\"error\":\"method not allowed\"}".to_string()));
}
