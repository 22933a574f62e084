use gatedesk::audit::{audit_line, count_field, flag_field, forwards_audit, record, text_field, ExtraValue, AUDIT_SERVER_OPTION, FORWARD_QUEUE_LEN};
use gatedesk::event::{notice_line, notify, EVENT_SERVER_OPTION, EVENT_TIMEOUT_SECS, QUEUE_LEN};

#[test]
fn audit_event_holds_its_fields() {
    let e = record("auth.grant", "customer", 9, "ok", vec![text_field("method", "password"), flag_field("relay", true), count_field("closed", 2)]);
    assert_eq!((e.action.as_str(), e.actor.as_str(), e.session_id, e.result.as_str()), ("auth.grant", "customer", 9, "ok"));
    assert_eq!(e.extra.len(), 3);
    assert_eq!(e.extra[0].key, "method");
    assert!(matches!(&e.extra[0].value, ExtraValue::Text(t) if t == "password"));
    assert!(matches!(e.extra[1].value, ExtraValue::Flag(true)));
    assert!(matches!(e.extra[2].value, ExtraValue::Count(2)));
}

#[test]
fn audit_forwarding_needs_a_server() {
    assert_eq!(AUDIT_SERVER_OPTION, "audit-server-url");
    assert_eq!(FORWARD_QUEUE_LEN, 1024);
    assert!(!forwards_audit(""));
    assert!(forwards_audit("https://audit.example"));
}

#[test]
fn notices_are_off_without_a_server() {
    assert_eq!((EVENT_SERVER_OPTION, QUEUE_LEN, EVENT_TIMEOUT_SECS), ("event-server-url", 64, 3));
    assert!(notify("", "login.pending", 1, "123", vec![]).is_none());
    let n = notify("https://events.example", "control.pending", 4, "123", vec![text_field("name", "keyboard")]).unwrap();
    assert_eq!((n.event.as_str(), n.session_id, n.peer_id.as_str()), ("control.pending", 4, "123"));
    assert_eq!(n.extra.len(), 1);
}

#[test]
fn audit_lines_are_compact_json() {
    let e = record("connect.start", "operator", 0, "err", vec![text_field("error", "bad \"q\"\n"), flag_field("relay", false), count_field("n", 3)]);
    assert_eq!(
        audit_line(&e, "123 456", -5),
        "{\"action\":\"connect.start\",\"actor\":\"operator\",\"device_id\":\"123 456\",\"extra\":{\"error\":\"bad \\\"q\\\"\\n\",\"n\":3,\"relay\":false},\"result\":\"err\",\"session_id\":0,\"ts\":-5}"
    );
    let e = record("x", "y", u64::MAX, "ok", vec![]);
    assert_eq!(
        audit_line(&e, "d", i64::MIN),
        "{\"action\":\"x\",\"actor\":\"y\",\"device_id\":\"d\",\"extra\":{},\"result\":\"ok\",\"session_id\":18446744073709551615,\"ts\":-9223372036854775808}"
    );
}

#[test]
fn notice_lines_are_compact_json() {
    let n = notify("https://events.example", "control.pending", 4, "123", vec![text_field("permission", "clipboard")]).unwrap();
    assert_eq!(
        notice_line(&n, "dev", 1700000000000),
        "{\"device_id\":\"dev\",\"event\":\"control.pending\",\"extra\":{\"permission\":\"clipboard\"},\"peer_id\":\"123\",\"session_id\":4,\"ts\":1700000000000}"
    );
    let v: serde_json::Value = serde_json::from_str(&notice_line(&n, "dev", 1)).unwrap();
    assert_eq!(v["extra"]["permission"], "clipboard");
}

#[test]
fn extra_members_are_sorted_and_the_last_value_wins() {
    let e = record("a", "b", 1, "ok", vec![
        text_field("zeta", "1"),
        flag_field("alpha", true),
        text_field("zeta", "2"),
        count_field("\u{e9}t\u{e9}", 4),
        count_field("mid", 5),
        text_field("Zed", "u"),
    ]);
    let line = audit_line(&e, "d", 0);
    let mut extra = serde_json::Map::new();
    extra.insert("zeta".to_string(), serde_json::Value::from("1"));
    extra.insert("alpha".to_string(), serde_json::Value::from(true));
    extra.insert("zeta".to_string(), serde_json::Value::from("2"));
    extra.insert("\u{e9}t\u{e9}".to_string(), serde_json::Value::from(4u64));
    extra.insert("mid".to_string(), serde_json::Value::from(5u64));
    extra.insert("Zed".to_string(), serde_json::Value::from("u"));
    let mut m = serde_json::Map::new();
    m.insert("action".to_string(), serde_json::Value::from("a"));
    m.insert("actor".to_string(), serde_json::Value::from("b"));
    m.insert("device_id".to_string(), serde_json::Value::from("d"));
    m.insert("session_id".to_string(), serde_json::Value::from(1u64));
    m.insert("ts".to_string(), serde_json::Value::from(0i64));
    m.insert("result".to_string(), serde_json::Value::from("ok"));
    m.insert("extra".to_string(), serde_json::Value::Object(extra));
    assert_eq!(line, serde_json::Value::Object(m).to_string());
    assert!(line.contains("{\"Zed\":\"u\",\"alpha\":true,\"mid\":5,\"zeta\":\"2\",\"\u{e9}t\u{e9}\":4}"));
}
