use gatedesk::json::{bool_field, error_body, id_field, json_field};
use gatedesk::url::{percent_decode, query_param};

#[test]
fn percent_decoding() {
    assert_eq!(percent_decode("%41%42c"), "ABc");
    assert_eq!(percent_decode("a+b%20c"), "a b c");
    assert_eq!(percent_decode("%zz%4"), "%zz%4");
    assert_eq!(percent_decode("%4a%4A"), "JJ");
    assert_eq!(percent_decode("%E4%BD%A0"), "\u{4f60}");
    assert_eq!(percent_decode("%FF!"), "\u{FFFD}!");
    assert_eq!(percent_decode("plain-ascii_1.2"), "plain-ascii_1.2");
    assert_eq!(percent_decode("%2B"), "+");
    assert_eq!(percent_decode("\u{4f60}\u{597d}-x"), "\u{4f60}\u{597d}-x");
}

#[test]
fn percent_round_trip() {
    for t in ["a+b/c", "100% sure", "\u{4f60}\u{597d}", "", "\u{1F600} ok"] {
        let enc: String = t.bytes().map(|b| format!("%{:02X}", b)).collect();
        assert_eq!(percent_decode(&enc), t);
    }
}

#[test]
fn query_parameters() {
    let q = "id=12%203&password=a+b&relay=true&id=other";
    assert_eq!(query_param(q, "id"), "12 3");
    assert_eq!(query_param(q, "password"), "a b");
    assert_eq!(query_param(q, "relay"), "true");
    assert_eq!(query_param(q, "token"), "");
    assert_eq!(query_param("xid=1&id=2", "id"), "2");
    assert_eq!(query_param("", "id"), "");
}

#[test]
fn json_fields() {
    let body = "{\"password\":\"p\\\"w\\\\x\\ny\\tz\\q\", \"accept\": true,\"id\":12}";
    assert_eq!(json_field(body, "password"), Some("p\"w\\x\ny\tzq".to_string()));
    assert_eq!(json_field(body, "accept"), Some("true".to_string()));
    assert_eq!(json_field(body, "id"), Some("12".to_string()));
    assert_eq!(json_field(body, "missing"), None);
    assert_eq!(json_field("{\"a\"}", "a"), None);
    assert_eq!(json_field("{\"a\": }", "a"), None);
    assert_eq!(json_field("{\"a\":\"open", "a"), Some("open".to_string()));
    assert_eq!(json_field("{\"a\":\"end\\", "a"), Some("end".to_string()));
}

#[test]
fn typed_fields() {
    assert_eq!(id_field("{\"id\":3}"), Some(3));
    assert_eq!(id_field("{\"id\":-2147483648}"), Some(i32::MIN));
    assert_eq!(id_field("{\"id\":2147483648}"), None);
    assert_eq!(id_field("{\"id\":\"7\"}"), Some(7));
    assert_eq!(id_field("{\"id\":x}"), None);
    assert_eq!(bool_field("{\"accept\":true}", "accept"), Some(true));
    assert_eq!(bool_field("{\"enabled\":false}", "enabled"), Some(false));
    assert_eq!(bool_field("{\"accept\":1}", "accept"), None);
    assert_eq!(bool_field("{}", "accept"), None);
}

#[test]
fn error_body_is_a_json_string() {
    assert_eq!(error_body("no such session"), "{\"ok\":false,\"error\":\"no such session\"}");
    assert_eq!(error_body("a\\b\r\u{8}\u{c}\u{1f}"), "{\"ok\":false,\"error\":\"a\\\\b\\r\\b\\f\\u001f\"}");
    assert_eq!(error_body("caf\u{e9}"), "{\"ok\":false,\"error\":\"caf\u{e9}\"}");
}
