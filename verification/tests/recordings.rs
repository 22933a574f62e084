use gatedesk::audit::{audit_line, ExtraValue};
use gatedesk::record_upload::{
    after_attempt, cleanup, endpoint, tail_len, is_chunked, is_marker_name, marker_time_ok, Attempt,
    DirEntry, RequestKind, RetryStep, Uploader, KEEP_UPLOADED_SECS, MAX_HEADER_LEN, RETRY,
    RETRY_DELAY_MS, SHOULD_SEND_SIZE, SHOULD_SEND_TIME_MS, UPLOADED_SUFFIX,
};

fn pairs(q: &[gatedesk::record_upload::QueryPair]) -> Vec<(String, String)> {
    q.iter().map(|p| (p.key.clone(), p.value.clone())).collect()
}

#[test]
fn upload_constants() {
    assert_eq!((RETRY, RETRY_DELAY_MS, SHOULD_SEND_TIME_MS, SHOULD_SEND_SIZE), (3, 500, 1000, 1024 * 1024));
    assert_eq!(MAX_HEADER_LEN, 1024);
    assert_eq!(UPLOADED_SUFFIX, ".uploaded");
    assert_eq!(KEEP_UPLOADED_SECS, 3 * 24 * 60 * 60);
}

#[test]
fn upload_mode() {
    assert!(is_chunked("chunked"));
    assert!(is_chunked(""));
    assert!(is_chunked("Whole"));
    assert!(!is_chunked("whole"));
}

#[test]
fn endpoint_is_the_origin_plus_api_record() {
    assert_eq!(endpoint("https://audit.example:8443/ingest/v1").unwrap(), "https://audit.example:8443/api/record");
    assert_eq!(endpoint("http://10.0.0.2").unwrap(), "http://10.0.0.2/api/record");
    assert_eq!(endpoint("audit.example/x").unwrap(), "audit.example/api/record");
    assert_eq!(endpoint("").unwrap_err(), "audit-server-url is not set");
}

#[test]
fn retries_back_off_then_give_up() {
    assert!(matches!(after_attempt(1, Attempt::Answered { code: 204, status: "204 No Content".to_string() }), RetryStep::Done));
    match after_attempt(1, Attempt::Answered { code: 404, status: "404 Not Found".to_string() }) {
        RetryStep::Wait { millis, last } => assert_eq!((millis, last.as_str()), (500, "http 404 Not Found")),
        _ => panic!("expected a wait"),
    }
    match after_attempt(2, Attempt::Failed("timed out".to_string())) {
        RetryStep::Wait { millis, last } => assert_eq!((millis, last.as_str()), (1000, "timed out")),
        _ => panic!("expected a wait"),
    }
    match after_attempt(3, Attempt::Failed("refused".to_string())) {
        RetryStep::GiveUp { last } => assert_eq!(last, "refused"),
        _ => panic!("expected to give up"),
    }
}

#[test]
fn chunked_upload_of_one_file() {
    let mut u = Uploader::new(7, 1_000);
    assert!(!u.running());
    assert!(u.start_file("/rec/a.webm", Some("a.webm".to_string()), true, 2_000));
    assert!(u.running());
    assert_eq!((u.filename().as_str(), u.filepath().as_str(), u.sent()), ("a.webm", "/rec/a.webm", 0));
    assert_eq!(
        pairs(&u.query(RequestKind::New, "dev1")),
        vec![
            ("type".to_string(), "new".to_string()),
            ("file".to_string(), "a.webm".to_string()),
            ("device_id".to_string(), "dev1".to_string()),
            ("session_id".to_string(), "7".to_string()),
        ]
    );
    assert!(u.on_frame(true));
    assert!(!u.on_frame(false));
    assert_eq!(u.send_part(false, 1000, 2_500), None);
    assert_eq!(u.send_part(false, 1000, 3_000), Some(0));
    assert_eq!(u.send_part(true, 1000, 2_001), Some(0));
    assert_eq!(u.send_part(false, SHOULD_SEND_SIZE, 2_001), Some(0));
    assert_eq!(u.send_part(false, SHOULD_SEND_SIZE - 1, 2_999), None);
    assert_eq!(u.send_part(true, 0, 9_000), None);
    let q = pairs(&u.part_query("dev1", 0, 1000));
    assert_eq!(q[0], ("type".to_string(), "part".to_string()));
    assert_eq!(q[4], ("offset".to_string(), "0".to_string()));
    assert_eq!(q[5], ("length".to_string(), "1000".to_string()));
    u.part_sent(1000, 3_000);
    assert_eq!(u.sent(), 1000);
    assert_eq!(u.send_part(true, 1000, 5_000), None);
    assert_eq!(u.send_part(false, 1500, 3_999), None);
    assert_eq!(u.send_part(false, 1500, 4_000), Some(1000));
    assert!(u.on_tail());
    assert!(!u.on_tail());
    assert!(!u.on_frame(true));
    let (e, marker) = u.finished(&Ok(()), 1_700_000_000);
    assert_eq!((e.action.as_str(), e.result.as_str(), e.session_id), ("record.upload.done", "ok", 7));
    assert!(matches!(e.extra[0].value, ExtraValue::Count(1000)));
    assert_eq!(e.extra[1].key, "file");
    let (path, contents) = marker.unwrap();
    assert_eq!((path.as_str(), contents.as_str()), ("/rec/a.webm.uploaded", "1700000000"));
    assert_eq!(
        audit_line(&e, "dev1", 1_700_000_000_123),
        "{\"action\":\"record.upload.done\",\"actor\":\"operator\",\"device_id\":\"dev1\",\"extra\":{\"bytes\":1000,\"file\":\"a.webm\"},\"result\":\"ok\",\"session_id\":7,\"ts\":1700000000123}"
    );
}

#[test]
fn a_path_without_a_file_name_is_ignored() {
    let mut u = Uploader::new(1, 0);
    assert!(!u.start_file("/", None, true, 5));
    assert!(!u.running());
    assert!(!u.on_new_file("/", true, 5));
    assert!(!u.running());
}

#[test]
fn on_new_file_reads_the_file_name() {
    let mut u = Uploader::new(1, 0);
    assert!(u.on_new_file("/rec/b.webm", true, 5));
    assert_eq!(u.filename(), "b.webm");
    let mut v = Uploader::new(1, 0);
    assert!(v.on_new_file("C:\\Users\\me\\Videos\\GateDesk\\outgoing_1.webm", true, 5));
    assert!(v.running());
    assert_eq!(v.filepath(), "C:\\Users\\me\\Videos\\GateDesk\\outgoing_1.webm");
    let mut x = Uploader::new(1, 0);
    assert!(!x.on_new_file("/rec/..", true, 5));
    assert!(!x.running());
    let mut w = Uploader::new(1, 0);
    assert!(!w.on_new_file("/rec/c.webm", false, 5));
    assert!(w.running());
}

#[test]
fn giving_up_and_removing() {
    let mut u = Uploader::new(3, 0);
    u.start_file("/r/x", Some("x".to_string()), true, 0);
    u.whole_sent(42);
    let e = u.give_up("part", "http 500");
    assert!(!u.running());
    assert_eq!((e.action.as_str(), e.result.as_str()), ("record.upload.fail", "err"));
    assert!(matches!(e.extra[0].value, ExtraValue::Count(42)));
    let keys: Vec<&str> = e.extra.iter().map(|f| f.key.as_str()).collect();
    assert_eq!(keys, vec!["bytes", "error", "file", "step"]);
    assert!(!u.on_tail());
    let (e, marker) = u.finished(&Err("boom".to_string()), 99);
    assert_eq!(e.action, "record.upload.fail");
    assert_eq!(e.extra.len(), 3);
    assert!(marker.is_none());
    let mut r = Uploader::new(3, 0);
    r.start_file("/r/y", Some("y".to_string()), true, 0);
    assert!(r.on_remove(true));
    assert!(!r.running());
    assert!(!r.on_remove(true));
    let mut w = Uploader::new(3, 0);
    w.start_file("/r/z", Some("z".to_string()), false, 0);
    assert!(!w.on_remove(false));
}

fn entry(path: &str, name: Option<&str>, contents: Option<&str>) -> DirEntry {
    DirEntry { path: path.to_string(), file_name: name.map(|s| s.to_string()), contents: contents.map(|s| s.to_string()) }
}

#[test]
fn cleanup_removes_only_expired_marked_recordings() {
    let now = 1_000_000u64;
    let old = (now - KEEP_UPLOADED_SECS).to_string();
    let fresh = (now - KEEP_UPLOADED_SECS + 1).to_string();
    let entries = vec![
        entry("/r/a.webm", Some("a.webm"), None),
        entry("/r/a.webm.uploaded", Some("a.webm.uploaded"), Some(&format!(" {}\n", old))),
        entry("/r/b.webm.uploaded", Some("b.webm.uploaded"), Some(&fresh)),
        entry("/r/c.webm.uploaded", Some("c.webm.uploaded"), Some("garbage")),
        entry("/r/d.webm.uploaded", Some("d.webm.uploaded"), None),
        entry("/r/e.webm.uploaded", None, Some("0")),
        entry("/r/f.webm.uploaded", Some("f.webm.uploaded"), Some("+0")),
    ];
    for e in &entries {
        assert!(marker_time_ok(&e.contents));
    }
    let r = cleanup(&entries, now);
    let got: Vec<(&str, &str)> = r.iter().map(|x| (x.recording.as_str(), x.marker.as_str())).collect();
    assert_eq!(got, vec![("/r/a.webm", "/r/a.webm.uploaded"), ("/r/f.webm", "/r/f.webm.uploaded")]);
}

#[test]
fn finishing_requests_and_the_head() {
    let u = Uploader::new(1, 0);
    assert_eq!(u.finish_requests(true), vec![RequestKind::Part, RequestKind::Tail]);
    assert_eq!(u.finish_requests(false), vec![RequestKind::New, RequestKind::Part, RequestKind::Tail]);
    assert_eq!(tail_len(0), 0);
    assert_eq!(tail_len(100), 100);
    assert_eq!(tail_len(1024), 1024);
    assert_eq!(tail_len(1 << 40), 1024);
}

#[test]
fn markers_and_their_times() {
    assert!(is_marker_name("a.webm.uploaded"));
    assert!(is_marker_name(".uploaded"));
    assert!(!is_marker_name("a.webm"));
    assert!(!is_marker_name("uploaded"));
    assert!(marker_time_ok(&Some("9223372036854775807".to_string())));
    assert!(!marker_time_ok(&Some("9223372036854775808".to_string())));
    assert!(marker_time_ok(&Some("99999999999999999999999".to_string())));
    assert!(marker_time_ok(&None));
}
