use analyze_screen_sidecar::calendar::{date_of, timestamp, Date};
use analyze_screen_sidecar::http::{
    analysis_reply, cors_headers, handle, json_response, request_id, Handling, Reply,
};
use analyze_screen_sidecar::json::{Body, Json};
use analyze_screen_sidecar::stagelog::StageLog;
use analyze_screen_sidecar::validate::error_object;

fn pair(k: &str, v: &str) -> (String, String) {
    (k.to_string(), v.to_string())
}

fn cors() -> Vec<(String, String)> {
    vec![
        pair("Access-Control-Allow-Origin", "*"),
        pair("Access-Control-Allow-Methods", "POST, GET, OPTIONS"),
        pair("Access-Control-Allow-Headers", "Content-Type"),
        pair("Access-Control-Expose-Headers", "X-Timings-Ms"),
    ]
}

fn reply(h: Handling) -> Reply {
    match h {
        Handling::Reply(r) => r,
        Handling::Analyze => panic!("not a reply"),
    }
}

#[test]
fn preflight_is_empty() {
    assert_eq!(cors_headers(), cors());
    let r = reply(handle("OPTIONS", "/whatever?x"));
    assert_eq!(r, Reply { status: 204, headers: cors(), body: None });
}

#[test]
fn health_is_ok() {
    let r = reply(handle("GET", "/health?verbose=1"));
    assert_eq!(r.status, 200);
    assert_eq!(
        r.body,
        Some(Body {
            value: Json::Object(vec![("status".to_string(), Json::Text("ok".to_string()))]),
            text: "{\"status\":\"ok\"}".to_string(),
        })
    );
    let mut expected = vec![pair("Content-Type", "application/json")];
    expected.extend(cors());
    assert_eq!(r.headers, expected);
}

#[test]
fn analysis_is_routed() {
    assert_eq!(handle("POST", "/analyze-screen"), Handling::Analyze);
    assert_eq!(handle("POST", "/analyze-screen?a=b?c"), Handling::Analyze);
}

#[test]
fn other_routes_are_unknown() {
    for (m, u) in [("GET", "/analyze-screen"), ("POST", "/health"), ("get", "/health"), ("PUT", "/x")] {
        let r = reply(handle(m, u));
        assert_eq!(r.status, 404);
        assert_eq!(r.body, Some(Body::of(error_object("NOT_FOUND", &format!("no route {m} {u}")))));
        assert!(r.headers.contains(&pair("Access-Control-Allow-Origin", "*")));
    }
    let r = reply(handle("PUT", "/x?q=1"));
    assert_eq!(r.body, Some(Body::of(error_object("NOT_FOUND", "no route PUT /x"))));
}

#[test]
fn analysis_reply_carries_timings() {
    let r = analysis_reply(422, Body::of(Json::Null), "{\"total\":3}");
    assert_eq!(r.status, 422);
    assert_eq!(r.headers.last(), Some(&pair("X-Timings-Ms", "{\"total\":3}")));
    assert_eq!(r.headers.len(), 6);
    assert_eq!(json_response(200, Body::of(Json::Null), Vec::new()).headers.len(), 5);
}

#[test]
fn request_names() {
    assert_eq!(request_id(1), "req-1");
    assert_eq!(request_id(120), "req-120");
}

#[test]
fn stage_times_add_up() {
    let mut log = StageLog::new("req-1");
    log.stage("screenshot", 0);
    log.stage("vlm_call", 250);
    log.stage("validate", 1300);
    assert_eq!(
        log.finish(1304),
        "{\"screenshot\":250,\"vlm_call\":1050,\"validate\":4,\"total\":1304}"
    );
    assert!(log.finish(u64::MAX).is_ascii());
    assert_eq!(StageLog::new("req-1").finish(7), "{\"total\":7}");
    assert_eq!(StageLog::elapsed_secs(1999), 1);
}

#[test]
fn log_lines_are_dated() {
    let log = StageLog::new("req-7");
    assert_eq!(log.note(0, "hello"), "1970-01-01T00:00:00.000Z [req-7] hello");
    assert_eq!(timestamp(1_709_164_799_999), "2024-02-28T23:59:59.999Z");
    assert_eq!(timestamp(1_709_164_800_000), "2024-02-29T00:00:00.000Z");
    assert_eq!(timestamp(951_868_799_007), "2000-02-29T23:59:59.007Z");
    assert_eq!(timestamp(4_107_542_400_000), "2100-03-01T00:00:00.000Z");
    assert_eq!(timestamp(1_735_689_599_000), "2024-12-31T23:59:59.000Z");
    assert_eq!(date_of(365), Date { year: 1971, month: 1, day: 1 });
}
