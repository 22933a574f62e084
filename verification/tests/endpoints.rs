use gatedesk::audit::{AuditEvent, ExtraValue};
use gatedesk::handlers::{
    ask_session_for_control, cm_call, connect_failed, connect_started, dispatch, error_reply,
    handle_approve, handle_connect, handle_control, handle_disconnect, handle_dismiss,
    handle_password, handle_permission, handle_request_permission, handle_sessions,
    handle_status, handle_terminate, id_reply, password_set, preflight_headers,
    request_permission_reply, respond, respond_reply, sessions_call, valid_peer_id, CmExchange,
    LaunchFailure, LocalApiAction, LocalApiReply, SessionExchange, CM_REPLY_TIMEOUT_MS,
};
use gatedesk::http_api::HeaderLine;
use gatedesk::sessions::{connect_sessions, ConnectSession};

fn pairs(hs: &[HeaderLine]) -> Vec<(String, String)> {
    hs.iter().map(|h| (h.name.clone(), h.value.clone())).collect()
}

fn text(e: &AuditEvent, i: usize) -> (String, String) {
    match &e.extra[i].value {
        ExtraValue::Text(t) => (e.extra[i].key.clone(), t.clone()),
        _ => panic!("not text"),
    }
}

#[test]
fn response_headers_follow_the_cors_origin() {
    assert_eq!(
        pairs(&respond("")),
        vec![("Content-Type".to_string(), "application/json; charset=utf-8".to_string())]
    );
    assert_eq!(
        pairs(&respond("http://localhost:3000")),
        vec![
            ("Access-Control-Allow-Origin".to_string(), "http://localhost:3000".to_string()),
            ("Access-Control-Allow-Private-Network".to_string(), "true".to_string()),
            ("Content-Type".to_string(), "application/json; charset=utf-8".to_string()),
        ]
    );
}

#[test]
fn preflight_headers_only_with_an_origin() {
    assert!(preflight_headers("").is_empty());
    let hs = pairs(&preflight_headers("http://localhost:3000"));
    assert_eq!(hs.len(), 5);
    assert_eq!(hs[1], ("Access-Control-Allow-Methods".to_string(), "GET, POST, OPTIONS".to_string()));
    assert_eq!(hs[2], ("Access-Control-Allow-Headers".to_string(), "Authorization, Content-Type".to_string()));
    assert_eq!(hs[4], ("Access-Control-Max-Age".to_string(), "600".to_string()));
}

#[test]
fn error_bodies_escape_the_reason() {
    let r = error_reply(400, "bad \"x\"\n\u{1}");
    assert_eq!(r.status, 400);
    assert_eq!(r.body, "{\"ok\":false,\"error\":\"bad \\\"x\\\"\\n\\u0001\"}");
}

#[test]
fn id_and_status_bodies() {
    let r = id_reply("123456789");
    assert_eq!((r.status, r.body.as_str()), (200, "{\"id\":\"123456789\"}"));
    let mut reg = connect_sessions();
    let r = handle_status(true, false, &reg);
    assert_eq!(r.body, "{\"online\":true,\"in_session\":false,\"peer_id\":null,\"assistable\":false}");
    reg.add(ConnectSession { id: "111".to_string(), pid: 1, created: 0 });
    reg.add(ConnectSession { id: "222".to_string(), pid: 2, created: 0 });
    let r = handle_status(false, true, &reg);
    assert_eq!(r.body, "{\"online\":false,\"in_session\":true,\"peer_id\":\"222\",\"assistable\":true}");
}

#[test]
fn connect_checks_the_id_and_builds_arguments() {
    let plan = handle_connect("id=123&password=p%40ss&relay=true&token=x").ok().unwrap();
    assert_eq!(plan.id, "123");
    assert!(plan.relay);
    assert_eq!(plan.args, vec!["--connect", "123", "p@ss", "--relay"]);
    let plan = handle_connect("id=9").ok().unwrap();
    assert!(!plan.relay);
    assert_eq!(plan.args, vec!["--connect", "9", ""]);
    for q in ["", "id=", "password=x", &format!("id={}", "a".repeat(129))] {
        let e = handle_connect(q).err().unwrap();
        assert_eq!((e.status, e.body.as_str()), (400, "{\"error\":\"missing or invalid id\"}"));
    }
    assert!(handle_connect(&format!("id={}", "a".repeat(128))).is_ok());
    let cjk = "\u{4f60}".repeat(100);
    let plan = handle_connect(&format!("id={}", "%E4%BD%A0".repeat(100))).ok().unwrap();
    assert_eq!(plan.id, cjk);
    assert!(handle_connect(&format!("id={}", "%E4%BD%A0".repeat(129))).is_err());
}

#[test]
fn connect_started_records_and_audits() {
    let mut reg = connect_sessions();
    let plan = handle_connect("id=42&relay=false").ok().unwrap();
    let (r, e) = connect_started(&mut reg, &plan, 77, 5);
    assert_eq!((r.status, r.body.as_str()), (200, "{\"ok\":true,\"id\":\"42\"}"));
    assert_eq!(reg.sessions.len(), 1);
    assert_eq!((reg.sessions[0].id.as_str(), reg.sessions[0].pid, reg.sessions[0].created), ("42", 77, 5));
    assert_eq!((e.action.as_str(), e.actor.as_str(), e.session_id, e.result.as_str()), ("connect.start", "operator", 0, "ok"));
    assert!(matches!(e.extra[0].value, ExtraValue::Flag(false)));
    assert_eq!(text(&e, 1), ("target_id".to_string(), "42".to_string()));
    let plan = handle_connect("id=a%22b").ok().unwrap();
    let (r, _) = connect_started(&mut reg, &plan, 78, 0);
    assert_eq!(r.body, "{\"ok\":true,\"id\":\"a\\\"b\"}");
}

#[test]
fn connect_failures_answer_500() {
    let plan = handle_connect("id=42").ok().unwrap();
    let (r, e) = connect_failed(&plan, &LaunchFailure::SpawnFailed("denied".to_string()));
    assert_eq!((r.status, r.body.as_str()), (500, "{\"error\":\"failed to launch: denied\"}"));
    assert_eq!(e.result, "err");
    assert_eq!(text(&e, 0), ("error".to_string(), "denied".to_string()));
    assert_eq!(text(&e, 1), ("target_id".to_string(), "42".to_string()));
    let (r, e) = connect_failed(&plan, &LaunchFailure::NoExecutable("gone".to_string()));
    assert_eq!(r.body, "{\"error\":\"failed to locate exe: gone\"}");
    assert_eq!(e.extra.len(), 1);
    assert_eq!(text(&e, 0), ("error".to_string(), "gone".to_string()));
}

#[test]
fn disconnect_reports_the_count() {
    let (r, e) = handle_disconnect(0);
    assert_eq!(r.body, "{\"ok\":true,\"closed\":0}");
    assert!(e.is_none());
    let (r, e) = handle_disconnect(2);
    assert_eq!(r.body, "{\"ok\":true,\"closed\":2}");
    let e = e.unwrap();
    assert_eq!(e.action, "connect.close");
    assert!(matches!(e.extra[0].value, ExtraValue::Count(2)));
}

#[test]
fn password_checks() {
    assert_eq!(handle_password("{\"password\":\"s3cr\\\"et\"}").ok().unwrap(), "s3cr\"et");
    for body in ["{}", "{\"password\":\"\"}", &format!("{{\"password\":\"{}\"}}", "x".repeat(65))] {
        let e = handle_password(body).err().unwrap();
        assert_eq!((e.status, e.body.as_str()), (400, "{\"ok\":false,\"error\":\"missing or invalid password\"}"));
    }
    assert!(handle_password(&format!("{{\"password\":\"{}\"}}", "x".repeat(64))).is_ok());
    let (r, e) = password_set(true);
    assert_eq!((r.status, r.body.as_str()), (200, "{\"ok\":true}"));
    assert_eq!((e.action.as_str(), e.actor.as_str(), e.result.as_str()), ("auth.grant", "customer", "ok"));
    let (r, e) = password_set(false);
    assert_eq!((r.status, r.body.as_str()), (500, "{\"ok\":false,\"error\":\"failed to set password\"}"));
    assert_eq!(e.result, "err");
    assert_eq!(text(&e, 0), ("error".to_string(), "failed to set password".to_string()));
    assert_eq!(text(&e, 1), ("method".to_string(), "password".to_string()));
}

#[test]
fn session_action_bodies() {
    assert_eq!(CM_REPLY_TIMEOUT_MS, 2000);
    let c = sessions_call();
    assert_eq!(c.id, 0);
    assert!(matches!(c.action, LocalApiAction::Sessions));
    let c = handle_approve("{\"id\":3,\"accept\":true}").ok().unwrap();
    assert_eq!(c.id, 3);
    assert!(matches!(c.action, LocalApiAction::Approve { accept: true }));
    let e = handle_approve("{\"id\":3,\"accept\":\"yes\"}").err().unwrap();
    assert_eq!((e.status, e.body.as_str()), (400, "{\"ok\":false,\"error\":\"id and accept are required\"}"));
    let c = handle_control("{\"id\":-4,\"name\":\"keyboard\",\"accept\":false}").ok().unwrap();
    assert_eq!(c.id, -4);
    assert!(matches!(&c.action, LocalApiAction::Control { name, accept: false } if name == "keyboard"));
    let e = handle_control("{\"id\":4,\"name\":\"mouse\",\"accept\":true}").err().unwrap();
    assert_eq!(e.body, "{\"ok\":false,\"error\":\"unknown permission\"}");
    let e = handle_control("{\"id\":4,\"accept\":true}").err().unwrap();
    assert_eq!(e.body, "{\"ok\":false,\"error\":\"id, name and accept are required\"}");
    let c = handle_permission("{\"id\":5,\"name\":\"audio\",\"enabled\":false}").ok().unwrap();
    assert!(matches!(&c.action, LocalApiAction::Permission { name, enabled: false } if name == "audio"));
    let e = handle_permission("{\"id\":3,\"name\":\"restart\",\"enabled\":true}").err().unwrap();
    assert_eq!((e.status, e.body.as_str()), (400, "{\"ok\":false,\"error\":\"unknown permission\"}"));
    let e = handle_permission("{\"id\":\"x\",\"name\":\"a\",\"enabled\":false}").err().unwrap();
    assert_eq!(e.body, "{\"ok\":false,\"error\":\"id, name and enabled are required\"}");
    assert!(matches!(handle_terminate("{\"id\":6}").ok().unwrap().action, LocalApiAction::Terminate));
    assert!(matches!(handle_dismiss("{ \"id\" : 7 }").ok().unwrap().action, LocalApiAction::Dismiss));
    assert_eq!(handle_terminate("{}").err().unwrap().body, "{\"ok\":false,\"error\":\"id is required\"}");
    assert_eq!(handle_dismiss("{\"id\":99999999999}").err().unwrap().status, 400);
}

#[test]
fn connection_manager_outcomes() {
    assert_eq!(cm_call(CmExchange::NotListening("refused".to_string())).err().unwrap(), (503, "no session manager is listening: refused".to_string()));
    assert_eq!(cm_call(CmExchange::SendFailed("pipe".to_string())).err().unwrap(), (500, "cannot reach the session manager: pipe".to_string()));
    assert_eq!(cm_call(CmExchange::AnsweredOther).err().unwrap(), (500, "the session manager answered with something else".to_string()));
    assert_eq!(cm_call(CmExchange::Closed).err().unwrap(), (500, "the session manager closed the connection".to_string()));
    assert_eq!(cm_call(CmExchange::ReadFailed("eof".to_string())).err().unwrap(), (500, "session manager error: eof".to_string()));
    assert_eq!(cm_call(CmExchange::TimedOut).err().unwrap(), (504, "the session manager did not answer".to_string()));
    assert!(matches!(cm_call(CmExchange::Answered(LocalApiReply::NotFound)), Ok(LocalApiReply::NotFound)));
}

#[test]
fn connection_manager_answers_become_responses() {
    let r = respond_reply(&LocalApiReply::Done { data: String::new() }, "result");
    assert_eq!((r.status, r.body.as_str()), (200, "{\"ok\":true}"));
    let r = respond_reply(&LocalApiReply::Done { data: "[1]".to_string() }, "sessions");
    assert_eq!(r.body, "{\"ok\":true,\"sessions\":[1]}");
    let r = respond_reply(&LocalApiReply::BadRequest { reason: "no".to_string() }, "result");
    assert_eq!((r.status, r.body.as_str()), (400, "{\"ok\":false,\"error\":\"no\"}"));
    let r = respond_reply(&LocalApiReply::NotFound, "result");
    assert_eq!((r.status, r.body.as_str()), (404, "{\"ok\":false,\"error\":\"no such session\"}"));
    let r = respond_reply(&LocalApiReply::Conflict { reason: "not pending".to_string() }, "result");
    assert_eq!(r.status, 409);
    let r = respond_reply(&LocalApiReply::Failed { reason: "x".to_string() }, "result");
    assert_eq!(r.status, 500);
    let r = dispatch(&Ok(LocalApiReply::Done { data: "{\"a\":1}".to_string() }));
    assert_eq!(r.body, "{\"ok\":true,\"result\":{\"a\":1}}");
    let r = dispatch(&Err((503, "no session manager is listening: x".to_string())));
    assert_eq!((r.status, r.body.as_str()), (503, "{\"ok\":false,\"error\":\"no session manager is listening: x\"}"));
}

#[test]
fn no_session_manager_means_no_sessions() {
    let r = handle_sessions(&Err((503, "nobody".to_string())));
    assert_eq!((r.status, r.body.as_str()), (200, "{\"ok\":true,\"sessions\":[]}"));
    let r = handle_sessions(&Err((504, "slow".to_string())));
    assert_eq!((r.status, r.body.as_str()), (504, "{\"ok\":false,\"error\":\"slow\"}"));
    let r = handle_sessions(&Ok(LocalApiReply::Done { data: "[]".to_string() }));
    assert_eq!(r.body, "{\"ok\":true,\"sessions\":[]}");
}

#[test]
fn peer_ids_safe_for_ipc_names() {
    assert!(valid_peer_id("123456789"));
    assert!(valid_peer_id("peer-id_9"));
    assert!(valid_peer_id(&"1".repeat(128)));
    assert!(!valid_peer_id(""));
    assert!(!valid_peer_id(&"1".repeat(129)));
    assert!(!valid_peer_id("a b"));
    assert!(!valid_peer_id("a/b"));
    assert!(!valid_peer_id("a\\b"));
    assert!(!valid_peer_id("a:b"));
    assert!(!valid_peer_id("a\u{7}b"));
    assert!(!valid_peer_id("a\u{3000}b"));
}

#[test]
fn request_permission_checks_in_order() {
    let e = handle_request_permission("{\"name\":\"file\"}").err().unwrap();
    assert_eq!(e.body, "{\"ok\":false,\"error\":\"id is required\"}");
    let e = handle_request_permission("{\"id\":\"a/b\",\"name\":\"file\"}").err().unwrap();
    assert_eq!(e.body, "{\"ok\":false,\"error\":\"invalid id\"}");
    let e = handle_request_permission("{\"id\":\"123\"}").err().unwrap();
    assert_eq!(e.body, "{\"ok\":false,\"error\":\"name is required\"}");
    let e = handle_request_permission("{\"id\":\"123\",\"name\":\"mouse\"}").err().unwrap();
    assert_eq!(e.body, "{\"ok\":false,\"error\":\"unknown permission\"}");
    let a = handle_request_permission("{\"id\":\"123\",\"name\":\"keyboard\"}").ok().unwrap();
    assert_eq!((a.peer_id.as_str(), a.permission.as_str()), ("123", ""));
    let a = handle_request_permission("{\"id\":\"123\",\"name\":\"clipboard\"}").ok().unwrap();
    assert_eq!(a.permission, "clipboard");
}

#[test]
fn asking_a_session() {
    assert!(ask_session_for_control(SessionExchange::Acknowledged, "1").is_ok());
    assert_eq!(
        ask_session_for_control(SessionExchange::NotListening("refused".to_string()), "123").err().unwrap(),
        (503, "no session for 123 is listening: refused".to_string())
    );
    assert_eq!(ask_session_for_control(SessionExchange::TimedOut, "1").err().unwrap(), (504, "the session did not answer".to_string()));
    assert_eq!(ask_session_for_control(SessionExchange::ReadFailed("x".to_string()), "1").err().unwrap(), (500, "cannot read the session's answer: x".to_string()));
    assert_eq!(ask_session_for_control(SessionExchange::SendFailed("y".to_string()), "1").err().unwrap().0, 500);
    assert_eq!(ask_session_for_control(SessionExchange::AnsweredOther, "1").err().unwrap().1, "the session answered with something else");
    assert_eq!(ask_session_for_control(SessionExchange::Closed, "1").err().unwrap().1, "the session closed the connection");
    let r = request_permission_reply(&Ok(()));
    assert_eq!((r.status, r.body.as_str()), (200, "{\"ok\":true}"));
    let r = request_permission_reply(&Err((504, "late".to_string())));
    assert_eq!((r.status, r.body.as_str()), (504, "{\"ok\":false,\"error\":\"late\"}"));
}
